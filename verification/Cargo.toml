[package]
name = "whatwg_streams"
version = "0.1.0"
edition = "2021"
publish = false

[dependencies]
futures = "=0.3.34"
parking_lot = "=0.12.5"
