[package]
name = "todo_web_app"
version = "0.1.0"
edition = "2021"
publish = false

[dependencies]
argon2 = "=0.5.3"
password-hash = { version = "=0.5.0", features = ["getrandom"] }
uuid = { version = "=1.27.0", features = ["v4"] }
time = "=0.3.55"
axum = "=0.8.9"
tokio = { version = "=1.53.2", features = ["full"] }
serde = { version = "=1.0.229", features = ["derive"] }
anyhow = "=1.0.104"
