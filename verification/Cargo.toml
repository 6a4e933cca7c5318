[package]
name = "pbkdf2"
version = "0.1.0"
edition = "2021"
publish = false

[dependencies]
base64ct = { version = "*", features = ["alloc"] }
hmac = "*"
sha1 = "*"
sha2 = "*"
password-hash = "*"
