[package]
name = "crypt"
version = "0.1.0"
edition = "2021"
publish = false

[dependencies]
aes = "0.8"
argon2 = "0.5"
clap = { version = "4", features = ["derive"] }
ctr = "0.9"
rand = "0.8"
rand_chacha = "0.3"
zeroize = "1"
