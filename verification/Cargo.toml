[package]
name = "matrafl"
version = "0.1.0"
edition = "2021"
publish = false

[dependencies]
argon2 = "0.5"
base16ct = { version = "0.2", features = ["alloc"] }
chrono = "0.4"
rand = "0.8"
rpassword = "7"
serde = { version = "1", features = ["derive"] }
serde_json = "1"
sha2 = "0.10"
