[package]
name = "txn_storage"
version = "0.1.0"
edition = "2021"
publish = false

[dependencies]
quick_cache = "0.2"
