[package]
name = "alphazero"
version = "0.1.0"
edition = "2021"
publish = false

[dependencies]
bincode = "1.3"
num = "0.4"
rand = "0.8"
rustfft = "6"
