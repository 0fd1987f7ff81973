[package]
name = "group_chat"
version = "0.1.0"
edition = "2021"
publish = false

[dependencies]
diesel = "*"
r2d2 = "*"
serde = { version = "*", features = ["derive"] }
chrono = "*"
