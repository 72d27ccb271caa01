[package]
name = "pyo3_stub_gen_derive"
version = "0.1.0"
edition = "2021"
publish = false

[dependencies]
heck = "0.5"
indexmap = "2"
proc-macro2 = "1"
quote = "1"
syn = { version = "2", features = ["full", "extra-traits"] }
rustpython-parser = "0.4"
