[package]
name = "tcpstate"
version = "0.1.0"
edition = "2021"
publish = false

[dependencies]
hashbrown = "*"
serde = { version = "1", features = ["derive"] }
