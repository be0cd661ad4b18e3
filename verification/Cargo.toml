[package]
name = "envelope_keys"
version = "0.1.0"
edition = "2021"
publish = false

[dependencies]
aes-gcm = "=0.10.3"
base64 = "=0.22.1"
rand = "=0.8.5"
rand_core = "=0.6.4"
sha2 = "=0.10.9"
hex = "=0.4.3"
argon2 = "=0.5.3"
axum = "=0.8.9"
tokio = { version = "=1.53.2", features = ["macros", "rt-multi-thread", "net"] }
serde = { version = "=1.0.229", features = ["derive"] }
serde_json = "=1.0.151"
uuid = "=1.27.0"
