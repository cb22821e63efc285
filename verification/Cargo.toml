[package]
name = "ramz"
version = "0.3.1"
edition = "2021"
publish = false

[dependencies]
age = "=0.10.1"
anyhow = "=1.0.104"
argon2 = "=0.5.3"
chacha20poly1305 = "=0.10.1"
clap = { version = "=4.6.7", features = ["derive"] }
dirs = "=5.0.1"
indicatif = "=0.17.11"
ml-kem = { version = "=0.3.4", features = ["getrandom"] }
rand = "=0.8.8"
regex = "=1.13.1"
rpassword = "=7.5.4"
sha2 = "=0.10.9"
tar = "=0.4.46"
tempfile = "=3.27.0"
thiserror = "=1.0.69"
walkdir = "=2.5.0"
which = "=6.0.3"
zeroize = "=1.9.1"
zstd = "=0.13.4"
