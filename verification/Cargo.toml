[package]
name = "vnlog"
version = "0.1.0"
edition = "2021"
publish = false

[dependencies]
chrono = "=0.4.45"
serde = { version = "=1.0.229", features = ["derive"] }
serde_json = "=1.0.154"
csv = "=1.4.0"
ureq = { version = "=2.12.1", features = ["json"] }
poise = "=0.5.7"
sqlx = { version = "=0.6.3", default-features = false, features = ["runtime-tokio-rustls", "sqlite", "chrono", "time"] }
tokio = { version = "=1.54.1", features = ["macros", "rt-multi-thread"] }
dotenv = "=0.15.0"
once_cell = "=1.21.4"
anyhow = "=1.0.104"
google-sheets4 = "=5.0.5"
