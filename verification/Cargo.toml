[package]
name = "parquet_viewer"
version = "0.1.0"
edition = "2021"
publish = false

[dependencies]
arrow = { version = "*", default-features = false, features = ["prettyprint"] }
bytes = "*"
clap = { version = "*", features = ["derive"] }
parquet = { version = "*", default-features = false, features = ["arrow"] }
tracing = "*"
tracing-subscriber = "*"
