[package]
name = "session_core"
version = "0.1.0"
edition = "2021"
publish = false

[dependencies]
bcrypt = "*"
dotenv = "0.15"
r2d2 = "0.8"
redis = { version = "*", features = ["r2d2"] }
rocket = { version = "0.5", features = ["json", "secrets"] }
serde = { version = "1", features = ["derive"] }
serde_json = "1"
