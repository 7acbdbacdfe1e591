[package]
name = "ic_dex"
version = "0.1.0"
edition = "2021"
publish = false

[dependencies]
candid = "0.8"
num-bigint = "0.4"
num-traits = "0.2"
ic-cdk = "0.6"
ic-cdk-macros = "0.6"
serde = { version = "1", features = ["derive"] }
