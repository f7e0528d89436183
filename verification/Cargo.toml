[package]
name = "valutx"
version = "0.1.0"
edition = "2021"
publish = false

[dependencies]
aes-gcm = "0.10"
argon2 = "0.5"
jsonwebtoken = "9"
rand = "0.8"
rand_core = "0.6"
serde = { version = "1", features = ["derive"] }
serde_json = "1"
url = "2"
uuid = { version = "1", features = ["v4"] }
webauthn-rs = { version = "0.5", features = ["danger-allow-state-serialisation"] }
actix-web = "4"
actix-web-httpauth = "0.8"
mongodb = "2"
futures = "0.3"
chrono = "0.4"
dotenv = "0.15"
