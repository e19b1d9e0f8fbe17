[package]
name = "bastion"
version = "0.1.0"
edition = "2021"
publish = false

[dependencies]
url = "2"
unicode-normalization = "0.1"
regex = "1"
reqwest = { version = "0.12", default-features = false }
trust-dns-resolver = "0.23"
walkdir = "2"
colored = "2"
