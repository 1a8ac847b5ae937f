[package]
name = "mcs_backend"
version = "0.1.0"
edition = "2021"
publish = false

[dependencies]
md5 = "*"
serde = { version = "*", features = ["derive"] }
serde_json = "*"
redis = { version = "*", features = ["tokio-comp"] }
tokio = { version = "*", features = ["fs", "process", "macros", "rt-multi-thread"] }
actix-web = "*"
actix-cors = "*"
tempfile = "*"
