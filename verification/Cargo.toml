[package]
name = "rib_registry"
version = "0.1.0"
edition = "2021"
publish = false

[dependencies]
golem-wasm-ast = "*"
