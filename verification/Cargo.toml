[package]
name = "blog_backend"
version = "0.1.0"
edition = "2021"
publish = false

[dependencies]
axum = { version = "=0.8.9", features = ["multipart"] }
axum-extra = { version = "=0.10.3", features = ["cookie"] }
base64ct = { version = "=1.8.3", features = ["alloc"] }
bcrypt = "=0.19.3"
chrono = "=0.4.45"
dotenv = "=0.15.0"
governor = "=0.10.4"
hmac = "=0.12.1"
html-escape = "=0.2.15"
infer = "=0.22.0"
jsonwebtoken = "=9.3.1"
regex = "=1.13.1"
serde = { version = "=1.0.229", features = ["derive"] }
serde_json = "=1.0.154"
sha2 = "=0.10.9"
sqlx = { version = "=0.8.6", default-features = false, features = ["runtime-tokio", "sqlite", "derive"] }
subtle = "=2.6.1"
time = "=0.3.55"
tokio = { version = "=1.54.1", features = ["full"] }
tower_governor = "=0.8.0"
tower-http = { version = "=0.6.11", features = ["cors", "fs", "limit"] }
tracing = "=0.1.44"
tracing-subscriber = "=0.3.23"
url = "=2.5.8"
uuid = { version = "=1.29.0", features = ["v4"] }
