[package]
name = "passman"
version = "0.1.0"
edition = "2021"
publish = false

[dependencies]
argon2 = "=0.5.3"
chacha20poly1305 = "=0.10.1"
rand = "=0.9.5"
rand_chacha = "=0.9.0"
dirs = "=7.0.0"
rpassword = "=7.5.4"
arboard = "=3.6.1"
