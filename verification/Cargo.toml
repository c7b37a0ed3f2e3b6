[package]
name = "nuzlolcke"
version = "0.1.0"
edition = "2021"
publish = false

[dependencies]
riven = "*"
chrono = "*"
tokio = { version = "*", features = ["macros", "rt-multi-thread"] }
futures = "*"
