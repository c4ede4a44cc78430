[package]
name = "amm_core"
version = "0.1.0"
edition = "2021"
publish = false

[dependencies]
cosmwasm-std = "1"
cw20 = "1"
schemars = "0.8"
serde = { version = "1", features = ["derive"] }
