[package]
name = "poppy"
version = "0.1.0"
edition = "2021"
publish = false

[dependencies]
hashbrown = "=0.9.1"
itertools = "=0.10.5"
uuid = { version = "=0.8.2", features = ["v4"] }
chrono = "=0.4.45"
hmac = "=0.10.1"
sha2 = "=0.9.9"
hex = "=0.4.3"
base64 = "=0.13.1"
decorum = "=0.3.1"
serde = { version = "=1.0.229", features = ["derive"] }
serde_json = "=1.0.154"
serde_repr = "=0.1.21"
tokio = { version = "=1.54.1", features = ["full"] }
reqwest = { version = "=0.11.27", features = ["json"] }
minreq = { version = "=2.14.1", features = ["https-native", "json-using-serde"] }
tokio-tungstenite = { version = "=0.13.0", features = ["tls"] }
tungstenite = "=0.12.0"
futures = "=0.3.34"
futures-util = "=0.3.34"
diesel = { version = "=1.4.8", features = ["mysql", "r2d2", "chrono"] }
r2d2 = "=0.8.10"
parking_lot = "=0.11.2"
anyhow = "=1.0.104"
async-trait = "=0.1.92"
lazy_static = "=1.5.1"
log = "=0.4.34"
env_logger = "=0.8.4"

[dev-dependencies]
round = "=0.1.2"
