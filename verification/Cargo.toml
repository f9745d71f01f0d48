[package]
name = "std_reference"
version = "0.1.0"
edition = "2021"
publish = false

[dependencies]
cosmwasm-std = "1"
cosmwasm-storage = "1"
schemars = "*"
serde = { version = "*", features = ["derive"] }
thiserror = "*"
vectorize = "*"
