[package]
name = "maid_manager"
version = "0.1.0"
edition = "2021"

[dependencies]
lru_time_cache = "*"
sodiumoxide = "*"
