[package]
name = "lance_namespace_ffi"
version = "0.1.0"
edition = "2021"
publish = false

[dependencies]
arrow = { version = "57", default-features = false, features = ["ffi"] }
lance-core = { version = "3.0.2", default-features = false }
lance-namespace = "3.0.2"
serde_json = "1"
tokio = { version = "1", features = ["rt-multi-thread", "sync"] }
