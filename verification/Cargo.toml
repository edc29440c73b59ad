[package]
name = "tracing_line_filter"
version = "0.1.0"
edition = "2021"
publish = false

[dependencies]
tracing-core = "0.1"
tracing-subscriber = { version = "0.3", features = ["env-filter"] }
