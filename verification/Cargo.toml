[package]
name = "probeweave"
version = "0.1.0"
edition = "2021"
publish = false

[dependencies]
clap = { version = "=4.6.7", features = ["derive"] }
orca-wasm = "=0.9.2"
opener = "=0.9.0"
project-root = "=0.2.2"
wasmparser = "=0.227.1"
