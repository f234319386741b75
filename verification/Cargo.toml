[package]
name = "icp_backend"
version = "0.1.0"
edition = "2021"
publish = false

[dependencies]
candid = "0.10"
ic-cdk = "*"
ic-cdk-macros = "*"
ic-stable-structures = "0.6"
serde = { version = "1", features = ["derive"] }
sha2 = "0.10"
