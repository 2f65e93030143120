[package]
name = "card_transfer"
version = "0.1.0"
edition = "2021"
publish = false

[dependencies]
pcsc = "2"
futures = "0.3"
serde = "1"
tokio = { version = "1", features = ["rt", "time"] }
