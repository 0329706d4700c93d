[package]
name = "fantoch"
version = "0.1.0"
edition = "2021"
publish = false

[dependencies]
threshold = "=0.9.1"
permutator = "=0.4.3"
rand = "=0.7.3"
serde = { version = "=1.0.229", features = ["derive"] }
tokio = { version = "=1.54.1", features = ["full"] }
futures = "=0.3.34"
pyo3 = "=0.30.1"
bincode = "1"
