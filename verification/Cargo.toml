[package]
name = "isabelle_core"
version = "0.1.0"
edition = "2021"
publish = false

[dependencies]
actix-cors = "=0.7.2"
actix-files = "=0.6.10"
actix-identity = "=0.8.0"
actix-multipart = "=0.6.2"
actix-rt = "=2.15.0"
actix-session = { version = "=0.10.1", features = ["cookie-session"] }
actix-web = "=4.18.1"
aes-gcm = "=0.10.3"
async-trait = "=0.1.92"
base64 = "=0.22.1"
bson = "=2.15.0"
chrono = "=0.4.45"
clap = { version = "=4.6.7", features = ["derive"] }
cron = "=0.15.0"
env_logger = "=0.11.11"
futures-util = "=0.3.34"
hex = "=0.4.3"
lettre = { version = "=0.11.23", default-features = false, features = ["builder", "smtp-transport", "rustls-tls"] }
log = "=0.4.35"
mongodb = "=3.9.1"
parking_lot = "=0.12.5"
rand = "=0.8.8"
sanitize-filename = "=0.6.0"
serde = { version = "=1.0.229", features = ["derive"] }
serde_json = "=1.0.154"
serde_qs = "=0.13.0"
sha2 = "=0.10.9"
tokio = { version = "=1.54.1", features = ["rt", "macros", "sync", "time"] }
uuid = { version = "=1.29.0", features = ["v4"] }

[dev-dependencies]
proptest = "=1.12.0"
