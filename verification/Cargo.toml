[package]
name = "nft_barter"
version = "0.1.0"
edition = "2021"
publish = false

[dependencies]
anchor-lang = "*"
anchor-spl = "*"
spl-token = "*"
spl-associated-token-account = "*"
