[package]
name = "codecpipe"
version = "0.1.0"
edition = "2021"
publish = false

[dependencies]
anyhow = "1"
base64 = "0.21"
md-5 = "0.10"
sha1 = "0.10"
sha2 = "0.10"
sm3 = "0.4"
digest = "0.10"
rsa = "0.9"
rand = "0.8"
aes = "0.7"
sm4 = "0.4"
block-modes = "0.8"
flate2 = "1"
snailquote = "0.3"
hex = "0.4"
percent-encoding = "2"
pipe = "0.4"
tokio = { version = "1", features = ["rt", "process", "io-util", "macros"] }
