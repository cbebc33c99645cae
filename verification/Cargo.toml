[package]
name = "greeting_handler"
version = "0.1.0"
edition = "2021"
publish = false

[dependencies]
serde_json = "1"
serde = { version = "1", features = ["derive"] }
log = "0.4"
simple_logger = "*"
lambda_runtime = "*"
tokio = { version = "1", features = ["macros", "rt-multi-thread"] }
