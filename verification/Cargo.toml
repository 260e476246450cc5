[package]
name = "deepblue_engine"
version = "0.1.0"
edition = "2021"
publish = false

[dependencies]
serde = { version = "1", features = ["derive"] }
serde_json = "1"
rand = "*"
rayon = "1"
pyo3 = "*"
