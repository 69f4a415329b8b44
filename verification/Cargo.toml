[package]
name = "now_playing"
version = "0.1.0"
edition = "2021"
publish = false

[dependencies]
base64 = "=0.23.1"
axum = "*"
tokio = { version = "*", features = ["rt-multi-thread", "macros", "net"] }
reqwest = { version = "=0.13.5", default-features = false, features = ["form"] }
dotenvy = "*"
tower-http = { version = "*", features = ["cors"] }

[dev-dependencies]
serde_json = "*"
