[package]
name = "intmax_circuits"
version = "0.1.0"
edition = "2021"
publish = false

[dependencies]
plonky2 = "=0.2.2"
anyhow = "=1.0.104"
serde = { version = "=1.0.229", features = ["derive"] }
serde_json = "=1.0.154"

[dev-dependencies]
rand = "=0.8.8"
