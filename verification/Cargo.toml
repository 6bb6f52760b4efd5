[package]
name = "komodo"
version = "0.1.0"
edition = "2021"
publish = false

[dependencies]
rand = "*"
indexmap = "2"
bcrypt = "*"
data-encoding = "2"
urlencoding = "2"
totp-rs = { version = "5", features = ["otpauth"] }
jsonwebtoken = "9"
serde = { version = "1", features = ["derive"] }
serde_json = "1"
sysinfo = "*"
