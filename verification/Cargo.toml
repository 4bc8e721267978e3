[package]
name = "reflect_scan"
version = "0.1.0"
edition = "2021"
publish = false

[dependencies]
cargo_metadata = "*"
syn = { version = "2", features = ["full"] }
walkdir = "2"
