[package]
name = "events"
version = "0.1.0"
edition = "2021"
publish = false

[dependencies]
pinned_pool = "=0.1.22"
futures = "=0.3.34"
