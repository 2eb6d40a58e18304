[package]
name = "readervzrd"
version = "0.1.0"
edition = "2021"
publish = false

[dependencies]
bytes = "1"
csv = "1"
parquet = { version = "*", default-features = false }
serde_json = "1"
thiserror = "1"
