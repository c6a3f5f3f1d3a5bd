[package]
name = "paw_irc"
version = "0.1.0"
edition = "2021"
publish = false

[dependencies]
uuid = { version = "*", features = ["v4"] }
tokio = { version = "*", features = ["full"] }
tokio-util = { version = "*", features = ["codec"] }
futures = "*"
bytes = "*"
clap = { version = "*", features = ["derive"] }
figment = { version = "*", features = ["yaml", "env"] }
serde = { version = "*", features = ["derive"] }
env_logger = "*"
log = "*"
thiserror = "*"
trust-dns-resolver = "*"
