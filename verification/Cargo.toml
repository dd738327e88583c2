[package]
name = "hashindex_rs"
version = "0.1.0"
edition = "2021"
publish = false

[dependencies]
xxhash-rust = { version = "*", features = ["xxh64", "xxh3"] }
smol = "*"
futures = "*"
argh = "*"
num_cpus = "*"
