[package]
name = "taurus_bridge"
version = "0.1.0"
edition = "2021"
publish = false

[dependencies]
chrono = "0.4"
dotenv = "0.15"
fasteval = "0.2"
flate2 = "1"
futures = "0.3"
http = "1"
poise = "0.6"
resvg = "*"
serde = { version = "1", features = ["derive"] }
serde_json = "1"
timeago = "0.4"
tokio = { version = "1", features = ["full"] }
tokio-websockets = { version = "*", features = ["client", "rustls-webpki-roots", "ring", "rand"] }
valence_anvil = "*"
valence_nbt = { version = "*", features = ["binary"] }
