[package]
name = "zero_copy_loader"
version = "0.1.0"
edition = "2021"
publish = false

[dependencies]
byteorder = "1"
io-uring = "0.6"
memmap2 = "0.9"
pyo3 = "0.20"
serde = { version = "1", features = ["derive"] }
serde_json = "1"
thiserror = "1"
