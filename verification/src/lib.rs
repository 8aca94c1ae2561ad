//! The freshness engine of a dependency badge service.
//!
//! The engine keeps the version records of the packages of a registry in a
//! [`database::PackageStore`], brings that store up to date with a mirror of
//! the registry index ([`ingest`]), analyses the dependencies of a crate or of
//! the manifests of a repository against it ([`analyze`], [`workspace`]), and
//! sums the outcome up in a [`model::Status`].
//!
//! Paths are texts, joined as [`path`] says.
//!
//! The engine reads no file and makes no request. Whoever uses it fetches the
//! mirror and the manifests, reads the advisory database, and hands them in.
//! Versions are compared and matched by the `semver` crate, advisories are
//! looked up in a `rustsec::Database`, manifests keep their dependencies in an
//! `indexmap::IndexMap`, and the caches are `lru::LruCache`s; what is taken on
//! trust about these is stated where they are called.

pub mod analyze;
pub mod cache;
pub mod command;
pub mod database;
pub mod fetch;
pub mod ingest;
pub mod model;
pub mod parser;
pub mod path;
pub mod refresh;
pub mod version;
pub mod view;
pub mod workspace;
