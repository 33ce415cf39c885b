[package]
name = "daily_mission"
version = "0.1.0"
edition = "2021"
publish = false

[dependencies]
argon2 = "0.5"
base64 = "0.22"
jsonwebtoken = "9"
rand_core = { version = "0.6", features = ["getrandom"] }
uuid = { version = "1", features = ["v4"] }
axum = "0.7"
axum-extra = { version = "0.9", features = ["cookie"] }
cookie = "0.18"
http = "1"
tower-http = { version = "0.6", features = ["cors"] }
sqlx = { version = "0.8", features = ["mysql", "runtime-tokio", "chrono"], default-features = false }
tokio = { version = "1", features = ["macros", "rt-multi-thread", "sync", "time", "net"] }
chrono = "0.4"
dotenvy = "0.15"
serde = { version = "1", features = ["derive"] }
tracing = "0.1"
tracing-subscriber = "0.3"
