[package]
name = "embedded_dispatch"
version = "0.1.0"
edition = "2021"
publish = false

[dependencies]
tantivy = "*"
