[package]
name = "packuwus"
version = "0.1.0"
edition = "2021"
publish = false

[dependencies]
gmod-lzma = "*"
goblin = "=0.8.2"
sha2 = "=0.10.9"
uuid = { version = "=1.27.0", features = ["v4"] }
procfs = "=0.16.0"
retour = "=0.3.1"
gmod = "*"
