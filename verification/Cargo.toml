[package]
name = "landfall_server"
version = "0.1.0"
edition = "2021"
publish = false

[dependencies]
sha2 = "=0.10.9"
time = { version = "=0.3.55", features = ["parsing", "formatting", "macros"] }
aes-gcm = "=0.10.3"
getrandom = "=0.3.4"
argon2 = "=0.5.3"
password-hash = { version = "=0.5.0", features = ["getrandom"] }
uuid = { version = "=1.29.0", features = ["v7"] }
serde = { version = "=1.0.229", features = ["derive"] }
serde_json = "=1.0.154"
thiserror = "=2.0.21"
tokio = { version = "=1.54.1", features = ["rt", "rt-multi-thread", "sync", "macros", "time", "net", "signal"] }
tokio-util = "=0.7.20"
tracing = "=0.1.44"
tracing-subscriber = { version = "=0.3.23", features = ["env-filter", "json"] }
axum = "0.8"
tower = { version = "0.5", features = ["limit"] }
tower-http = { version = "0.6", features = ["limit", "fs"] }
sqlx = { version = "0.8", default-features = false, features = ["runtime-tokio", "postgres", "uuid", "time", "json"] }
utoipa = "5"
