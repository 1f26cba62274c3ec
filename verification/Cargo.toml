[package]
name = "hfdl_autopilot"
version = "0.1.0"
edition = "2021"
publish = false

[dependencies]
actix-web = { version = "4", default-features = false, features = ["macros"] }
chrono = "0.4"
clap = { version = "4", features = ["derive"] }
dashmap = { version = "5", features = ["serde"] }
lazy_static = "1"
log = "0.4"
rand = "0.8"
regex = "1"
reqwest = { version = "0.11", default-features = false, features = ["rustls-tls"] }
serde = { version = "1", features = ["derive"] }
serde_json = "1"
stderrlog = "0.5"
tokio = { version = "1", features = ["io-util", "macros", "process", "rt-multi-thread", "time"] }
url = "2"
