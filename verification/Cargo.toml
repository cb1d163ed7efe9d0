[package]
name = "taskscore"
version = "0.1.0"
edition = "2021"
publish = false

[dependencies]
base64 = "*"
bcrypt = "*"
bolt-client = "*"
chrono = "*"
dotenv = "*"
futures = "*"
rand = "*"
rocket = { version = "*", features = ["json"] }
serde = { version = "*", features = ["derive"] }
tokio-util = { version = "*", features = ["compat"] }
