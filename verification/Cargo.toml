[package]
name = "devbit"
version = "0.1.0"
edition = "2021"
publish = false

[dependencies]
axum = { version = "0.8", features = ["multipart", "ws"] }
base64 = "0.22"
chrono = "0.4"
dashmap = "6"
dotenv = "0.15"
futures-util = "0.3"
hmac = "0.12"
jsonwebtoken = { version = "10", default-features = false, features = ["rust_crypto"] }
lettre = { version = "0.11", default-features = false, features = ["builder", "hostname", "smtp-transport", "pool", "rustls", "ring", "webpki-roots"] }
mime_guess = "2"
rand = "0.9"
serde = { version = "1", features = ["derive"] }
serde_json = { version = "1", features = ["preserve_order"] }
sha2 = "0.10"
sqlx = { version = "0.8", default-features = false, features = ["runtime-tokio", "postgres", "migrate"] }
tokio = { version = "1", features = ["full"] }
tracing = "0.1"
tracing-appender = "0.2"
tracing-subscriber = { version = "0.3", features = ["env-filter", "json"] }
uuid = { version = "1", features = ["v4"] }
