[package]
name = "kikande"
version = "0.1.0"
edition = "2021"
publish = false

[dependencies]
clap = { version = "4", features = ["derive"] }
lazy_static = "1"
rand = "0.8"
regex = "1"
rustc-hash = "2"
thiserror = "1"
