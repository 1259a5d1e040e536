[package]
name = "otp_service"
version = "0.1.0"
edition = "2021"
publish = false

[dependencies]
hmac = "0.12"
sha1 = "0.10"
rand = "0.8"
base64 = "0.21"
urlencoding = "2.1"
qrcodegen = "1.8"
image = { version = "0.24", default-features = false, features = ["png"] }
serde = { version = "1", features = ["derive"] }
serde_json = "1"
axum = "0.7"
tokio = { version = "1", features = ["macros", "rt-multi-thread", "net"] }
tower-http = { version = "0.5", features = ["cors"] }
dotenv = "0.15"
