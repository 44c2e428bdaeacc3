[package]
name = "corridor_ml"
version = "0.1.0"
edition = "2021"
publish = false

[dependencies]
anyhow = "*"
candle-core = "*"
candle-nn = "*"
chrono = "*"
serde = { version = "*", features = ["derive"] }
sqlx = { version = "*", default-features = false, features = ["postgres", "runtime-tokio"] }
tokio = { version = "*", features = ["rt-multi-thread", "macros", "time"] }
