[package]
name = "amm_validator"
version = "0.1.0"
edition = "2021"
publish = false

[dependencies]
num-bigint = "*"
blake2b-ref = "*"
hex = "*"
