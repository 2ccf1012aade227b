[package]
name = "circom_bridge"
version = "0.1.0"
edition = "2021"
publish = false

[dependencies]
ark-ff = "*"
ark-relations = "*"
color-eyre = "0.6"
num-bigint = "0.4"
rayon = "1"
serde = { version = "1", features = ["derive"] }
serde_json = "1"
wasmer = "4.4"

[dev-dependencies]
ark-bn254 = "*"
