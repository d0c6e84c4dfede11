[package]
name = "conrod"
version = "0.1.0"
edition = "2021"
publish = false

[dependencies]
rusttype = "=0.9.3"
fnv = "=1.0.7"
pistoncore-input = "=1.0.1"
daggy = "*"
