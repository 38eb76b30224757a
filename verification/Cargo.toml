[package]
name = "easy_password"
version = "0.1.0"
edition = "2021"
publish = false

[dependencies]
hmac = "0.12"
sha2 = "0.10"
crossbeam-channel = "0.5"
log = "0.4"
thiserror = "*"
toml = "*"
rdev = "0.5"
core-foundation = "*"
core-graphics = "*"
foreign-types = "*"
