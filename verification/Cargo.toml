[package]
name = "office_hours"
version = "0.1.0"
edition = "2021"
publish = false

[dependencies]
sha2 = "=0.10.9"
hex = "=0.4.3"
candid = "=0.10.39"
ic-cdk = "=0.13.6"
ic-stable-structures = "=0.6.9"
serde = { version = "=1.0.229", features = ["derive"] }
