[package]
name = "aegis"
version = "0.1.0"
edition = "2021"
publish = false

[dependencies]
argon2 = "=0.5.3"
blake2 = "=0.10.6"
chacha20poly1305 = "=0.10.1"
getrandom = "=0.2.17"
keyring = "=2.3.3"
rpassword = "=7.3.1"
tar = "=0.4.46"
clap = { version = "=4.6.7", features = ["derive"] }
clap_complete = "=4.6.11"
flate2 = "1"
