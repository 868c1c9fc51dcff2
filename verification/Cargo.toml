[package]
name = "arcader_imager"
version = "0.1.0"
edition = "2021"
publish = false

[dependencies]
serde = { version = "1", features = ["derive"] }
serde_json = "1"
sha2 = "0.10"
tokio = { version = "1", features = ["fs", "io-util", "rt", "time", "sync"] }
reqwest = { version = "0.12", default-features = false, features = ["stream"] }
futures-util = "0.3"
