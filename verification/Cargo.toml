[package]
name = "chat_relay"
version = "0.1.0"
edition = "2021"
publish = false

[dependencies]
urlencoding = "*"
actix = "*"
actix-cors = "*"
actix-files = "*"
actix-web = "*"
actix-web-actors = "*"
reqwest = { version = "*", default-features = false, features = ["json"] }
serde = { version = "*", features = ["derive"] }
serde_json = "*"
tokio = { version = "*", features = ["sync", "macros", "rt-multi-thread"] }
