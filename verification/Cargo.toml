[package]
name = "genesis_populate"
version = "0.1.0"
edition = "2021"
publish = false

[dependencies]
borsh = "0.10.4"
near-primitives = "0.23.0"
