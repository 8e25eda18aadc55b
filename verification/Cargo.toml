[package]
name = "weight_trader"
version = "0.1.0"
edition = "2021"
publish = false

[dependencies]
staging-xcm = "=16.2.0"
staging-xcm-executor = "=19.1.4"
staging-xcm-builder = "=20.1.1"
log = "0.4"
