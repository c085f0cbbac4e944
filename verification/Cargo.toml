[package]
name = "points"
version = "0.1.0"
edition = "2021"
publish = false

[dependencies]
nois = "*"
cosmwasm-std = "*"
cosmwasm-schema = "*"
cw-storage-plus = "*"
cw2 = "*"
cw721 = "*"
thiserror = "*"
