[package]
name = "spectral"
version = "0.1.0"
edition = "2021"
publish = false

[dependencies]
globset = "0.4"
url = "2"
urlencoding = "2"
rand = "0.8"
uuid = { version = "1", features = ["v4"] }
chrono = { version = "0.4", features = ["serde"] }
hex = "0.4"
regex = "1"
zeroize = "1"
serde = { version = "1", features = ["derive"] }
serde_json = "1"
toml = "0.8"
dirs = "5"
directories = "5"
rusqlite = "0.32"
walkdir = "2"
rayon = "1"
crossbeam-channel = "0.5"
tokio = { version = "1", features = ["rt-multi-thread", "macros", "fs", "time", "sync"] }
tracing = "0.1"
thiserror = "1"
async-trait = "0.1"
futures-util = "0.3"
sqlx = { version = "0.8", default-features = false, features = ["sqlite", "runtime-tokio", "macros", "migrate"] }
chromiumoxide = { version = "*", default-features = false, features = ["tokio-runtime"] }
