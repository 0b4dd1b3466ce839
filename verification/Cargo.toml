[package]
name = "webcodex"
version = "0.1.0"
edition = "2021"
publish = false

[dependencies]
url = "2"
serde = { version = "1", features = ["derive"] }
rusqlite = { version = "*", features = ["bundled"] }
