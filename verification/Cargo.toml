[package]
name = "transfer_hook_vault"
version = "0.1.0"
edition = "2021"
publish = false

[dependencies]
anchor-lang = { version = "=1.2.2", features = ["init-if-needed"] }
anchor-spl = "=1.2.2"
spl-tlv-account-resolution = "=0.11.4"
spl-transfer-hook-interface = "=2.1.0"
