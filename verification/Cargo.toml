[package]
name = "textedit"
version = "0.1.0"
edition = "2021"
publish = false

[dependencies]
ropey = "1.6"
regex = "1"
uuid = { version = "1", features = ["v4"] }
encoding_rs = "0.8"
arboard = { version = "3", default-features = false }
serde = { version = "1", features = ["derive"] }
thiserror = "1"
anyhow = "1"
dirs = "5"
