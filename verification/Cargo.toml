[package]
name = "vtt_keyboard_lib"
version = "0.1.0"
edition = "2021"
publish = false

[dependencies]
serde_json = "*"
regex = "*"
url = "*"
reqwest = { version = "*", default-features = false, features = ["blocking", "json"] }
