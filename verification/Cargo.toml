[package]
name = "breakpad_symbols"
version = "0.1.0"
edition = "2021"
publish = false

[dependencies]
debugid = "=0.8.0"
uuid = "=1.29.0"
async-trait = "=0.1.92"
thiserror = "=1.0.69"
tokio = { version = "=1.54.1", features = ["sync", "rt"] }
tracing = "=0.1.44"
