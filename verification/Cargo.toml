[package]
name = "paraseq_filt"
version = "0.1.0"
edition = "2021"
publish = false

[dependencies]
anyhow = "=1.0.104"
clap = { version = "=4.6.7", features = ["derive"] }
num_cpus = "=1.17.0"
paraseq = "0.4"
pyo3 = { version = "=0.22.6", features = ["extension-module"] }
