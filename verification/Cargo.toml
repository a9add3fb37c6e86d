[package]
name = "rust_os"
version = "0.1.0"
edition = "2021"

[dependencies]
volatile = "=0.2.7"
spin = "=0.12.3"
lazy_static = "=1.5.1"
x86_64 = { version = "=0.15.5", default-features = false, features = ["instructions"] }
