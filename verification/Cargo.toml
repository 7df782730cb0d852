[package]
name = "greptimedb_wide_metrics"
version = "0.1.0"
edition = "2021"
publish = false

[dependencies]
async-trait = "0.1"
chrono = "0.4"
futures = "0.3"
futures-util = "0.3"
greptimedb-ingester = "*"
regex = "1"
serde = { version = "1", features = ["derive"] }
