[package]
name = "account_resolver"
version = "0.1.0"
edition = "2021"
publish = false

[dependencies]
near-primitives = "*"
near-crypto = "*"
near-account-id = "*"
inquire = "*"
color-eyre = "*"
interactive-clap = "*"
derive_more = { version = "*", features = ["display"] }
strum_macros = "*"
strum = "*"
