[package]
name = "oslo_policy"
version = "0.1.0"
edition = "2021"
publish = false

[dependencies]
peg = "0.8"
thiserror = "1"
