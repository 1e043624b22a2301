[package]
name = "embed_gateway"
version = "0.1.0"
edition = "2021"
publish = false

[dependencies]
async-trait = "*"
axum = "*"
candle-core = "*"
candle-nn = "*"
candle-transformers = "*"
reqwest = { version = "*", default-features = false, features = ["json"] }
serde = { version = "*", features = ["derive"] }
serde_json = "*"
thiserror = "*"
tokenizers = "*"
tokio = { version = "*", features = ["rt-multi-thread", "macros", "sync", "net"] }
toml = "*"
