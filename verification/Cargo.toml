[package]
name = "hvctrl"
version = "0.1.0"
edition = "2021"
publish = false

[dependencies]
serde_json = "*"
encoding_rs = "*"
serde = { version = "*", features = ["derive"] }
reqwest = { version = "*", default-features = false, features = ["blocking"] }
