[package]
name = "todo_backend"
version = "0.1.0"
edition = "2021"
publish = false

[dependencies]
rand = "0.7"
sha3 = "0.9"
serde = { version = "1", features = ["derive"] }
mongodb = "1"
actix = "0.10"
actix-web = "3"
actix-cors = "0.5"
futures = "0.3"
