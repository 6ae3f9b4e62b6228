[package]
name = "scalable_groups"
version = "0.1.0"
edition = "2021"
publish = false

[dependencies]
candid = "=0.8.4"
ic-cdk = "=0.6.10"
ic-cdk-macros = "=0.6.10"
ic_scalable_misc = "=0.2.52"
ic_scalable_canister = "=0.2.731"
ic-stable-structures = "=0.7.2"
serde = { version = "=1.0.229", features = ["derive"] }
serde_json = "=1.0.154"
