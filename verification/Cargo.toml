[package]
name = "erp_core"
version = "0.1.0"
edition = "2021"
publish = false

[dependencies]
chrono = "*"
sqlx = { version = "*", default-features = false, features = ["sqlite", "runtime-tokio"] }
tokio = { version = "*", features = ["rt", "macros"] }
