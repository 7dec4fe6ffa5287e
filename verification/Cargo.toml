[package]
name = "lighthouse"
version = "0.1.0"
edition = "2021"
publish = false

[dependencies]
solana-program = "1.16"
anchor-lang = "0.29.0"
borsh = "0.10"
