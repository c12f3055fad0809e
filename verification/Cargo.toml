[package]
name = "discord_finder"
version = "0.1.0"
edition = "2021"
publish = false

[dependencies]
minreq = "*"
serde = { version = "*", features = ["derive"] }
serde_json = "*"
string-tools = "*"
