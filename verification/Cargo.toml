[package]
name = "watchbot"
version = "0.1.0"
edition = "2021"
publish = false

[dependencies]
regex = "*"
dice = "*"
rand = "*"
toml = "*"
serde = { version = "*", features = ["derive"] }
chrono = "*"
hiirc = "*"
