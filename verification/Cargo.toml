[package]
name = "cauldron"
version = "0.1.0"
edition = "2021"
publish = false

[dependencies]
semver = "=1.0.28"
libloading = "0.8"
log = "0.4"
serde = { version = "1", features = ["derive"] }
toml = "0.8"
keyvalues-serde = "*"
