[package]
name = "synapse"
version = "0.1.0"
edition = "2021"
publish = false

[dependencies]
anyhow = "1"
libc = "0.2"
pyo3 = "0.22"
serde = { version = "1", features = ["derive"] }
