[package]
name = "rustcast"
version = "0.1.0"
edition = "2021"
publish = false

[dependencies]
base64 = "*"
chrono = "*"
lame = "*"
lewton = "*"
ogg = "0.8"
reqwest = { version = "*", default-features = false, features = ["blocking", "json"] }
serde = { version = "*", features = ["derive"] }
serde_json = "*"
tiny_http = "*"
toml = "*"
uuid = { version = "*", features = ["v4"] }
