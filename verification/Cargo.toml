[package]
name = "rpc_load_balancer"
version = "0.1.0"
edition = "2021"
publish = false

[dependencies]
axum = "0.8"
dotenv = "0.15"
reqwest = { version = "0.12", default-features = false }
serde = { version = "1", features = ["derive"] }
tokio = { version = "1", features = ["rt-multi-thread", "macros", "time", "net"] }
toml = "*"
