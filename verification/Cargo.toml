[package]
name = "stump_core"
version = "0.1.0"
edition = "2021"
publish = false

[dependencies]
bcrypt = "=0.19.3"
fern = "*"
log = "*"
