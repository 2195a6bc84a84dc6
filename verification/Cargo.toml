[package]
name = "campus_dual"
version = "0.1.0"
edition = "2021"
publish = false

[dependencies]
chrono = "=0.4.45"
scraper = "=0.27.0"
serde = { version = "=1.0.229", features = ["derive"] }
serde_json = "=1.0.151"
axum = "=0.8.9"
tokio = { version = "=1.53.2", features = ["full"] }
reqwest = { version = "=0.13.5", default-features = false, features = ["rustls", "cookies", "json"] }
reqwest-middleware = "=0.5.2"
reqwest-retry = "=0.9.1"
reqwest_cookie_store = "=0.10.0"
cookie_store = "=0.22.1"
aes-gcm = "=0.11.1"
base64 = "=0.23.1"
rand = "=0.10.3"
jsonwebtoken = "=11.1.0"
http = "=1.5.0"
fnv = "=1.0.7"
anyhow = "=1.0.104"
