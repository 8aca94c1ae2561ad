//! The settings of a running service, fixed at startup.

use crate::path::{join, joined};
use vstd::prelude::*;
use vstd::string::StringExecFns;

verus! {

/// Where the registry index comes from, where the service keeps its data and
/// how often it refreshes them.
#[derive(Debug, Clone)]
pub struct Config {
    /// The proxy for outbound requests, if any.
    pub proxy: Option<String>,
    /// The directory under which everything is kept.
    pub cache: String,
    /// The address of the upstream registry index.
    pub index: String,
    /// The time between two refreshes, in milliseconds.
    pub interval: u64,
}

/// The directory that holds everything unless another is given.
pub open spec fn default_cache() -> Seq<char> {
    "./deps.cache"@
}

/// The upstream registry index unless another is given.
pub open spec fn default_index() -> Seq<char> {
    "https://github.com/rust-lang/crates.io-index.git"@
}

/// The milliseconds between two refreshes unless another number is given:
/// five minutes.
pub open spec fn default_interval() -> nat {
    300_000
}

impl Config {
    /// The settings of a service started without any option.
    pub fn new() -> (config: Config)
        ensures
            config.proxy is None,
            config.cache@ == default_cache(),
            config.index@ == default_index(),
            config.interval == default_interval(),
    {
        Config {
            proxy: None,
            cache: String::from_str("./deps.cache"),
            index: String::from_str("https://github.com/rust-lang/crates.io-index.git"),
            interval: 300_000,
        }
    }
}

/// The proxy for outbound requests, if one is set.
pub fn proxy(config: &Config) -> (r: Option<&str>)
    ensures
        r is Some <==> config.proxy is Some,
        r matches Some(p) ==> p@ == config.proxy->0@,
{
    match &config.proxy {
        Some(p) => Some(p.as_str()),
        None => None,
    }
}

/// The directory of the package store: `database` under the cache directory.
pub fn db_path(config: &Config) -> (r: String)
    ensures
        r@ == joined(config.cache@, "database"@),
{
    join(config.cache.as_str(), "database")
}

/// The milliseconds between two refreshes.
pub fn tick_interval(config: &Config) -> (r: u64)
    ensures
        r == config.interval,
{
    config.interval
}

/// The directory of the index mirror: `crates.io-index` under the cache
/// directory.
pub fn cache_dir(config: &Config) -> (r: String)
    ensures
        r@ == joined(config.cache@, "crates.io-index"@),
{
    join(config.cache.as_str(), "crates.io-index")
}

/// The address of the upstream registry index.
pub fn index_url(config: &Config) -> (r: &str)
    ensures
        r@ == config.index@,
{
    config.index.as_str()
}

} // verus!
