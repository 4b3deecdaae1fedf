[package]
name = "mars_periphery"
version = "0.1.0"
edition = "2021"
publish = false

[dependencies]
sha2 = "*"
ripemd = "*"
bech32 = "*"
cosmwasm-crypto = "*"
k256 = "*"
