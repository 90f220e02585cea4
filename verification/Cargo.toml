[package]
name = "trae_cli"
version = "0.1.0"
edition = "2021"
publish = false

[dependencies]
rayon = "1"
sha2 = "0.10"
hex = "0.4"
num_cpus = "1"
walkdir = "2"
serde = { version = "1", features = ["derive"] }
serde_json = "1"
anyhow = "1"
clap = { version = "4", features = ["derive"] }
colored = "2"
tokio = { version = "1", features = ["rt-multi-thread", "macros"] }
