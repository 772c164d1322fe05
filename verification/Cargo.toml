[package]
name = "silicon_agent"
version = "0.1.0"
edition = "2021"
publish = false

[dependencies]
chrono = "=0.4.45"
cron = "=0.17.0"
serde = { version = "=1.0.229", features = ["derive"] }
serde_json = "=1.0.154"
prost = "=0.14.4"
tungstenite = { version = "*", default-features = false, features = ["handshake"] }
zip = { version = "*", default-features = false, features = ["deflate"] }
