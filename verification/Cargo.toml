[package]
name = "predmarket"
version = "0.1.0"
edition = "2021"
publish = false

[dependencies]
rust_decimal = { version = "1", features = ["maths"] }
rust_decimal_macros = "1"
uuid = { version = "1", features = ["v4", "serde"] }
chrono = { version = "0.4", features = ["serde"] }
hmac = "0.12"
sha2 = "0.10"
base64 = "0.22"
argon2 = { version = "0.5", features = ["std"] }
dashmap = "5"
serde = { version = "1", features = ["derive"] }
serde_json = "1"
axum = { version = "0.7", features = ["ws"] }
tokio = { version = "1", features = ["full"] }
tracing = "0.1"
tracing-subscriber = { version = "0.3", features = ["json", "env-filter"] }
prometheus = { version = "0.13", default-features = false }
sqlx = { version = "0.7", default-features = false, features = ["runtime-tokio", "postgres", "uuid", "chrono", "macros"] }
tower = "0.4"
tower-http = { version = "0.5", features = ["cors", "request-id", "timeout", "trace", "util"] }
secrecy = { version = "0.8", features = ["serde"] }
anyhow = "1"
thiserror = "1"
futures = "0.3"
futures-util = "0.3"
moka = { version = "0.12", features = ["future"] }
async-trait = "0.1"
utoipa = "4"
config = "0.14"
