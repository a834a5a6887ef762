[package]
name = "star_cloudburst"
version = "0.1.0"
edition = "2021"
publish = false

[dependencies]
arrayvec = "0.7"
digest = "0.10"
dirs = "*"
either = "1"
http = "1"
itertools = "*"
log = "0.4"
num-bigint = "0.4"
num-integer = "0.1"
serde = { version = "1", features = ["derive"] }
serde_bencode = "0.2"
serde_bytes = "0.11"
sha1 = "0.10"
sha2 = "0.10"
