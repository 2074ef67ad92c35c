[package]
name = "string_metrics"
version = "0.1.0"
edition = "2021"
publish = false

[dependencies]
rapidfuzz = "0.5"
unicode-normalization = "0.1"
unicode_categories = "0.1"
clap = { version = "4", features = ["derive"] }
colored = "2"
glob = "0.3"
serde = { version = "1", features = ["derive"] }
serde_yaml = "0.9"
chrono = "0.4"
