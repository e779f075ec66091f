[package]
name = "envsynx"
version = "0.1.0"
edition = "2021"
publish = false

[dependencies]
urlencoding = "*"
serde = { version = "*", features = ["derive"] }
serde_json = "*"
reqwest = { version = "*", features = ["json"] }
trpl = "*"
webbrowser = "*"
