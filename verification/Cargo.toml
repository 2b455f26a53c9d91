[package]
name = "reborn"
version = "0.1.0"
edition = "2021"
publish = false

[dependencies]
byteorder = "1"
linked-hash-map = "0.5"
url = "2"
clap = { version = "4", features = ["derive"] }
colored = "2"
csv = "1"
serde = { version = "1", features = ["derive"] }
serde_json = "1"
ron = "0.8"
sha256 = { version = "1", default-features = false }
directories-next = "2"
num_cpus = "1"
indoc = "2"
zip = { version = "2", default-features = false, features = ["deflate"] }
reqwest = { version = "0.12", default-features = false, features = ["blocking"] }
