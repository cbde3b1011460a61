[package]
name = "muscl"
version = "0.1.0"
edition = "2021"
publish = false

[dependencies]
anyhow = "1"
async-bincode = { version = "0.7", features = ["tokio"] }
bincode = "1"
chrono = { version = "0.4", features = ["serde"] }
clap = { version = "4", features = ["derive", "cargo"] }
clap_complete = { version = "4", features = ["unstable-dynamic"] }
clap-verbosity-flag = { version = "3", features = ["tracing"] }
derive_more = { version = "1", features = ["display", "error"] }
dialoguer = "0.11"
futures = "0.3"
futures-util = { version = "0.3", features = ["sink"] }
humansize = "2"
indoc = "2"
itertools = "*"
log = "0.4"
nix = { version = "0.29", features = ["user", "fs"] }
prettytable-rs = "0.10"
rand = "0.8"
serde = { version = "1", features = ["derive"] }
serde_json = "1"
thiserror = "2"
tokio = { version = "1", features = ["full"] }
tokio-serde = { version = "0.9", features = ["bincode"] }
tokio-stream = "0.1"
tokio-util = { version = "0.7", features = ["codec"] }
toml = "*"
tracing = "0.1"
tracing-subscriber = "0.3"
