[package]
name = "bouwer"
version = "0.1.0"
edition = "2021"
publish = false

[dependencies]
anyhow = "1"
bollard = "0.20"
chrono = { version = "0.4", default-features = false, features = ["clock"] }
fst = "0.4"
futures-util = "0.3"
human_bytes = "0.4"
serde = { version = "1", features = ["derive"] }
serde_json = "1"
slint = { version = "1.16", default-features = false, features = ["compat-1-2", "std"] }
ssh2 = "0.9"
tokio = { version = "1", features = ["rt-multi-thread", "macros", "fs", "io-util", "process", "time"] }
ureq = { version = "3", default-features = false, features = ["json", "rustls"] }
