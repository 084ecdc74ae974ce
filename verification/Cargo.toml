[package]
name = "zero_postgres"
version = "0.1.0"
edition = "2021"
publish = false

[dependencies]
compio = { version = "*", features = ["macros", "runtime", "net", "io"] }
tokio = { version = "*", features = ["rt", "net", "io-util", "macros", "time"] }
