[package]
name = "pipesys"
version = "0.1.0"
edition = "2021"
publish = false

[dependencies]
anyhow = "1"
bincode = "1"
clap = { version = "4", features = ["derive"] }
daemonize = "0.5"
env_logger = "0.10"
filetime = "0.2"
flate2 = "1"
futures = "0.3"
inotify = "0.10"
log = "0.4"
nix = { version = "0.28", default-features = false, features = ["fs"] }
pentacle = "1"
serde = { version = "1", features = ["derive"] }
serde_json = "1"
tar = "0.4"
tempfile = "3"
tokio = { version = "1", features = ["fs", "macros", "rt"] }
tracing = "0.1"
uds = { version = "0.4", features = ["tokio"] }
