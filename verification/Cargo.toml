[package]
name = "tabular_to_parquet"
version = "0.1.0"
edition = "2021"
publish = false

[dependencies]
anyhow = "*"
arrow = "*"
chrono = "*"
clap = { version = "*", features = ["derive"] }
crossbeam = "*"
csv = "*"
env_logger = "*"
indicatif = "*"
log = "*"
owo-colors = "*"
parquet = "*"
rayon = "*"
tempfile = "*"
