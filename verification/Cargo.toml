[package]
name = "compiler_solidity"
version = "0.1.0"
edition = "2021"
publish = false

[dependencies]
anyhow = "=1.0.104"
hex = "=0.4.3"
inkwell = { version = "=0.11.0", features = ["llvm15-0"] }
md5 = "=0.7.0"
num = "=0.4.3"
semver = "=1.0.28"
serde = { version = "=1.0.229", features = ["derive"] }
serde_json = "=1.0.154"
sha3 = "=0.10.9"
