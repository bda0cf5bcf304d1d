[package]
name = "moabdb"
version = "0.1.0"
edition = "2021"
publish = false

[dependencies]
base64 = "0.13"
chrono = "0.4"
ureq = "2"
polars = { version = "*", default-features = false, features = ["parquet"] }
