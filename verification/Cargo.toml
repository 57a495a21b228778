[package]
name = "rust_in_action"
version = "0.1.0"
edition = "2021"
publish = false

[dependencies]
regex = "1"
byteorder = "1"
rand = "0.8"
chrono = "0.4"
clap = "2"
serde = "1"
serde_derive = "1"
serde_json = "1"
serde_cbor = "0.11"
bincode = "1"
libc = "0.2"
url = "2"
trust-dns = { version = "0.16", default-features = false }
tokio = { version = "1", features = ["rt", "macros"] }
reqwest = { version = "0.11", default-features = false }
