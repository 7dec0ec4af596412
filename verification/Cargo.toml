[package]
name = "pyo3_macros_backend"
version = "0.1.0"
edition = "2021"
publish = false

[dependencies]
proc-macro2 = { version = "1", features = ["span-locations"] }
quote = { version = "1" }
syn = { version = "1", features = ["full", "extra-traits"] }
