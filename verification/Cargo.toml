[package]
name = "guarded_fs"
version = "0.1.0"
edition = "2021"
publish = false

[dependencies]
sha2 = "0.10"
data-encoding = "2"
jsonwebtoken = "9"
serde_json = "1"
ed25519-compact = "2"
sysinfo = "*"
brotli = "*"
tar = "0.4"
serde = "1"
