[package]
name = "tinkoff_bank"
version = "0.1.0"
edition = "2021"
publish = false

[dependencies]
uuid = { version = "=1.27.0", features = ["v4"] }
reqwest = { version = "=0.13.5", default-features = false, features = ["query", "form"] }
tokio = { version = "*", features = ["macros", "rt"] }
chrono = "*"
