[package]
name = "caolc"
version = "0.1.0"
edition = "2021"
publish = false

[dependencies]
tree-sitter = "0.25"
clap = { version = "4", features = ["derive"] }
thiserror = "2"
