[package]
name = "couch_rs"
version = "0.1.0"
edition = "2021"
publish = false

[dependencies]
serde = { version = "*", features = ["derive"] }
serde_json = "*"
http = "*"
url = "*"
reqwest = { version = "*", default-features = false, features = ["json"] }
