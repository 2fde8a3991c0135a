[package]
name = "nexosign"
version = "0.1.0"
edition = "2021"
publish = false

[dependencies]
hex = "0.4"
sha1 = "0.10"
sha2 = "0.10"
x509-parser = "*"
base64 = "0.22"
serde = { version = "1", features = ["derive"] }
serde_json = "1"
uuid = { version = "1", features = ["v4"] }
axum = "0.8"
tokio = { version = "1", features = ["rt-multi-thread", "macros", "net", "sync", "time", "fs"] }
tokio-util = "0.7"
tower-http = { version = "0.6", features = ["cors"] }
multer = "3"
futures-util = "0.3"
bytes = "1"
rusqlite = { version = "*", features = ["bundled"] }
lopdf = "*"
cryptoki = "*"
chrono = "0.4"
flate2 = "1"
image = { version = "0.25", default-features = false, features = ["png"] }
tracing = "0.1"
thiserror = "2"
cms = { version = "0.2", features = ["builder"] }
x509-cert = { version = "0.2", features = ["builder"] }
rsa = { version = "0.9", features = ["sha2"] }
