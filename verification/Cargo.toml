[package]
name = "nexus_emotes"
version = "0.1.0"
edition = "2021"
publish = false

[dependencies]
gif = "*"
gif-dispose = "*"
rand = "*"
serde = { version = "*", features = ["derive"] }
serde_json = "*"
ureq = { version = "*", features = ["json"] }
url = "*"
