[package]
name = "todo"
version = "0.1.0"
edition = "2021"
publish = false

[dependencies]
chrono = { version = "0.4", default-features = false, features = ["std", "serde"] }
crossterm = "0.27"
serde = { version = "1", features = ["derive"] }
serde_json = "1"
thiserror = "1"
