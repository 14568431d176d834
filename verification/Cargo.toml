[package]
name = "canister_core"
version = "0.1.0"
edition = "2021"
publish = false

[dependencies]
candid = "*"
sha256 = { version = "*", default-features = false }
