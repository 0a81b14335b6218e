[package]
name = "whir_pcs"
version = "0.1.0"
edition = "2021"
publish = false

[dependencies]
spongefish = "=0.3.0"
anyhow = "=1.0.104"
serde_json = "=1.0.151"
