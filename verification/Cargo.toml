[package]
name = "identity_certifier"
version = "0.1.0"
edition = "2021"
publish = false

[dependencies]
aes-gcm = "*"
sha2 = "*"
hex = "*"
serde = { version = "*", features = ["derive"] }
serde_json = "*"
candid = "*"
ic-cdk = "*"
ic-cdk-macros = "*"
