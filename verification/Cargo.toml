[package]
name = "rfs"
version = "0.1.0"
edition = "2021"
publish = false

[dependencies]
libc = "=0.2.191"
serde_json = "=1.0.154"
serde = { version = "=1.0.229", features = ["derive"] }
log = "=0.4.35"
env_logger = { version = "=0.11.11", default-features = false }
reqwest = { version = "=0.12.28", default-features = false, features = ["blocking", "json"] }
fuser = { version = "=0.15.1", default-features = false }
actix-web = { version = "=4.18.1", default-features = false, features = ["macros"] }
tokio = { version = "=1.54.1", features = ["fs", "io-util", "macros", "rt-multi-thread"] }
tokio-util = { version = "=0.7.20", features = ["codec", "io"] }
futures-util = "=0.3.34"
