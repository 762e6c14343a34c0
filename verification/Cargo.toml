[package]
name = "find_my_operations"
version = "0.1.0"
edition = "2021"
publish = false

[dependencies]
url = "=2.5.8"
chrono = "=0.4.45"
serde = { version = "=1.0.229", features = ["derive"] }
reqwest = { version = "=0.12.28", default-features = false, features = ["blocking", "json"] }
diesel = { version = "=2.3.14", features = ["sqlite"] }
slack-hook = { version = "=0.9.1", default-features = false, features = ["blocking"] }
