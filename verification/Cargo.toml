[package]
name = "pcm_core"
version = "0.1.0"
edition = "2021"
publish = false

[dependencies]
jsonwebtoken = "9"
csv = "1"
serde = { version = "1", features = ["derive"] }
serde_json = { version = "1", features = ["preserve_order"] }
anyhow = "1"
axum = { version = "0.7", features = ["multipart"] }
sqlx = { version = "0.8", default-features = false, features = ["sqlite", "runtime-tokio", "macros"] }
tokio = { version = "1", features = ["full"] }
bcrypt = "0.15"
chrono = "0.4"
rust_xlsxwriter = "*"
tower-http = { version = "0.6", features = ["cors", "limit"] }
tracing = "0.1"
tracing-subscriber = "0.3"
zip = "*"
mime_guess = "2"
rust-embed = "8"
rand = "0.8"
