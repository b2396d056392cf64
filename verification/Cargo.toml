[package]
name = "cashengine"
version = "0.1.0"
edition = "2021"
publish = false

[dependencies]
flate2 = "*"
memmap2 = "*"
reqwest = { version = "*", default-features = false, features = ["blocking"] }
serde = { version = "*", features = ["derive"] }
serde_json = "*"
tracing = "*"
tracing-subscriber = "*"
tungstenite = "*"
