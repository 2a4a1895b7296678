[package]
name = "ampkg"
version = "0.1.0"
edition = "2021"
publish = false

[dependencies]
colored = "2"
futures-util = "0.3"
indicatif = "0.17"
reqwest = { version = "0.12", features = ["stream"] }
rkyv = "0.8"
serde = { version = "1", features = ["derive"] }
tar = "0.4"
tokio = { version = "1", features = ["full"] }
toml = "0.8"
zstd = "0.13"
