[package]
name = "imag"
version = "0.1.0"
edition = "2021"
publish = false

[dependencies]
toml = "=0.5.11"
toml-query = "=0.10.0"
semver = "=1.0.28"
hex = "=0.4.3"
sha1 = "=0.11.0"
sha2 = "=0.11.1"
sha3 = "=0.12.0"
hoedown = "=6.0.0"
email = "=0.0.21"
clap = "=2.34.0"
serde = { version = "=1.0.229", features = ["derive"] }
