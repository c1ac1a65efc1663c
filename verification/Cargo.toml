[package]
name = "gated_proxy"
version = "0.1.0"
edition = "2021"
publish = false

[dependencies]
actix-web = { version = "4", default-features = false, features = ["macros"] }
awc = { version = "3", default-features = false }
env_logger = { version = "0.11", default-features = false }
futures-util = "0.3"
log = "0.4"
serde = { version = "1", features = ["derive"] }
serde_json = "1"
sse-core = "*"
tokio = { version = "1", features = ["sync", "time"] }
