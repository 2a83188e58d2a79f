[package]
name = "nac"
version = "0.1.0"
edition = "2021"
publish = false

[dependencies]
md5 = "0.7"
serde_json = "1"
serde = { version = "1", features = ["derive"] }
anyhow = "1"
thiserror = "1"
dhcproto = "0.12"
pnet = "0.35"
tokio = { version = "1", features = ["full"] }
async-nats = "*"
futures-util = "0.3"
axum = "0.8"
sqlx = { version = "0.8", default-features = false, features = ["runtime-tokio", "postgres", "uuid", "time", "json", "macros"] }
uuid = { version = "1", features = ["v4", "serde"] }
time = "0.3"
jsonwebtoken = "9"
ldap3 = { version = "0.11", default-features = false }
argon2 = "0.5"
reqwest = { version = "0.12", default-features = false }
rustls = { version = "0.23", default-features = false, features = ["ring", "std", "tls12"] }
rustls-pemfile = "2"
sys-info = "0.9"
config = { version = "0.14", default-features = false }
tracing = "0.1"
tracing-subscriber = { version = "0.3", features = ["json", "env-filter"] }
