[package]
name = "depsbadge"
version = "0.1.0"
edition = "2021"
publish = false

[dependencies]
actix-rt = "2"
actix-web = "4"
anyhow = "1"
askama = "=0.10.5"
badge = "=0.3.0"
bincode = "=1.3.3"
bytes = "1"
chrono = "0.4"
fern = { version = "0.6", features = ["colored"] }
futures = "0.3"
git2 = "=0.13.25"
humantime = "2"
indexmap = { version = "=1.9.3", features = ["serde-1"] }
lazy_static = "1"
log = "0.4"
lru = "=0.6.6"
once_cell = "1"
reqwest = "0.11"
rustsec = "=0.23.3"
sass-rs = "=0.2.2"
semver = { version = "=0.11.0", features = ["serde"] }
serde = { version = "1", features = ["derive"] }
serde_json = "1"
sled = "=0.34.7"
structopt = "0.3"
toml = "=0.5.11"
url = "2"
