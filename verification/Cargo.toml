[package]
name = "structured_data"
version = "0.1.0"
edition = "2021"
publish = false

[dependencies]
routing = "<0.4.1"
sodiumoxide = "=0.2.7"
time = "=0.1.45"
