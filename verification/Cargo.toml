[package]
name = "ballista_core"
version = "0.1.0"
edition = "2021"
publish = false

[dependencies]
arrow-flight = { version = "53", features = ["flight-sql-experimental"] }
datafusion = { version = "44", default-features = false, features = ["parquet"] }
datafusion-proto = { version = "44", default-features = false, features = ["parquet"] }
prost = "0.13"
