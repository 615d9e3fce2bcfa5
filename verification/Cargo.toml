[package]
name = "lazyfood"
version = "0.1.0"
edition = "2021"
publish = false

[dependencies]
select = "*"
serde_json = "*"
serde = { version = "*", features = ["derive"] }
reqwest = { version = "*", default-features = false, features = ["cookies"] }
tokio = { version = "*", features = ["rt", "macros"] }
