[package]
name = "thin_edge_json"
version = "0.1.0"
edition = "2021"
publish = false

[dependencies]
chrono = "*"
