[package]
name = "polykit"
version = "0.1.0"
edition = "2021"
publish = false

[dependencies]
aes-gcm = "=0.10.3"
async-trait = "=0.1.92"
base64 = "=0.22.1"
bytes = "=1.12.1"
chrono = "=0.4.45"
futures-util = "=0.3.34"
hkdf = "=0.12.4"
image = { version = "0.25", default-features = false, features = ["png"] }
jiff = "=0.2.39"
owo-colors = "=4.4.0"
parking_lot = "=0.12.5"
png = "0.17"
rand = "=0.8.8"
reqwest = { version = "=0.12.28", default-features = false, features = ["json"] }
serde = { version = "=1.0.229", features = ["derive"] }
serde_json = "=1.0.154"
sha2 = "=0.10.9"
sqlx = { version = "0.8", default-features = false, features = ["sqlite", "runtime-tokio"] }
thiserror = "=2.0.21"
tokio = { version = "=1.54.1", features = ["sync", "rt", "rt-multi-thread", "macros", "time", "fs"] }
tokio-tungstenite = "=0.26.2"
tracing = "=0.1.44"
tracing-appender = "=0.2.5"
tracing-log = "=0.2.0"
tracing-subscriber = "=0.3.23"
uuid = { version = "=1.29.0", features = ["v5", "v7"] }
