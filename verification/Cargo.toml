[package]
name = "athenas_pallas"
version = "0.1.0"
edition = "2021"
publish = false

[dependencies]
rust_decimal = "1"
time = { version = "0.3", features = ["macros", "parsing", "formatting"] }
uuid = { version = "1", features = ["v4"] }
serde = { version = "1", features = ["derive"] }
serde_json = "1"
hmac = "0.12"
sha2 = "0.10"
hex = "0.4"
thiserror = "1"
tokio = { version = "1", features = ["rt-multi-thread", "macros", "sync", "time", "net"] }
async-trait = "0.1"
csv = "1"
reqwest = { version = "0.12", default-features = false }
tokio-tungstenite = "0.24"
futures-util = "0.3"
axum = "0.7"
tracing = "0.1"
