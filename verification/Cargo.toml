[package]
name = "bus_mapping"
version = "0.1.0"
edition = "2021"
publish = false

[dependencies]
ethers-core = "*"

[dev-dependencies]
rand = "0.8"
