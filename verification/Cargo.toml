[package]
name = "oxidase"
version = "0.1.0"
edition = "2021"
publish = false

[dependencies]
heck = "0.5"
dioxus = { version = "0.7", default-features = false, features = ["hooks", "signals", "document"] }
serde = { version = "1", features = ["derive"] }
serde_json = "1"
thiserror = "2"
tracing = "0.1"
syn = { version = "2", features = ["full"] }
quote = "1"
proc-macro2 = "1"
