[package]
name = "typed_dialogflow"
version = "0.1.0"
edition = "2021"
publish = false

[dependencies]
language-tags = "*"
serde = { version = "*", features = ["derive"] }
serde_json = "*"
thiserror = "*"
