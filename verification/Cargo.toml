[package]
name = "antimpeu"
version = "0.1.0"
edition = "2021"
publish = false

[dependencies]
aes-gcm = "0.10"
hex = "0.4"
pbkdf2 = "0.12"
hmac = "0.12"
sha2 = "0.10"
rand_core = { version = "0.6", features = ["getrandom"] }
typenum = "1"
serde = { version = "1", features = ["derive"] }
serde_json = "1"
rpassword = "7"
whoami = "1"
chrono = "0.4"
