[package]
name = "git_me"
version = "0.1.0"
edition = "2021"
publish = false

[dependencies]
heck = "*"
argh = "*"
glob = "*"
serde = { version = "*", features = ["derive"] }
serde_yaml = "*"
gitlab = "*"
reqwest = { version = "*", default-features = false, features = ["blocking", "json"] }
