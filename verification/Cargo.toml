[package]
name = "catte"
version = "0.1.0"
edition = "2021"
publish = false

[dependencies]
convert_case = "=0.12.0"
tokio = { version = "=1.54.1", features = ["rt-multi-thread", "net", "io-util"] }
aes = "=0.9.4"
ctr = "=0.10.1"
grammers-crypto = "*"
num-bigint = "*"
