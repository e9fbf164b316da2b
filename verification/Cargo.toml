[package]
name = "xyk_pool"
version = "0.1.0"
edition = "2021"
publish = false

[dependencies]
anyhow = "1"
dotenv = "0.15"
rand = "0.9"
serde = { version = "1", features = ["derive"] }
tokio = { version = "1", features = ["macros", "rt", "time"] }
toml = "0.9"
tracing = "0.1"
