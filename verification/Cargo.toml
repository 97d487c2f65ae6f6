[package]
name = "middleware"
version = "0.1.0"
edition = "2021"
publish = false

[dependencies]
anyhow = "=1.0.104"
candid = "=0.9.11"
ciborium = "=0.2.2"
futures = "0.3"
hex = "=0.4.3"
ic-cdk = "=0.10.2"
ic-cdk-timers = "0.4"
ic-stable-structures = "=0.6.9"
ic-web3-rs = "=0.1.11"
num-bigint = "=0.4.8"
serde = { version = "=1.0.229", features = ["derive"] }
serde_cbor = "=0.11.2"
thiserror = "=1.0.69"
