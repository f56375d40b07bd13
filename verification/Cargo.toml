[package]
name = "cardgame"
version = "0.1.0"
edition = "2021"
publish = false

[dependencies]
rand = "0.8"
serde = { version = "1", features = ["derive"] }
axum = "0.7"
tokio = { version = "1", features = ["net", "rt-multi-thread", "macros"] }
tower-http = { version = "0.5", features = ["fs"] }
