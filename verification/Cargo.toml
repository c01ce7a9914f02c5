[package]
name = "revenue_converter"
version = "0.1.0"
edition = "2021"
publish = false

[dependencies]
cosmwasm-std = "=2.3.6"
cosmwasm-schema = "=2.3.6"
cw-storage-plus = "=2.0.0"
cw2 = "2"
kujira = "=1.3.0"
