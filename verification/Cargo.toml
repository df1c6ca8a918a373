[package]
name = "m2sql"
version = "0.1.0"
edition = "2021"
publish = false

[dependencies]
indexmap = "2"
regex = "1"
thiserror = "1"
clap = { version = "4", features = ["derive"] }
