[package]
name = "rust-parallel"
version = "0.1.0"
edition = "2021"
publish = false

[dependencies]
anyhow = "1"
bytesize = "*"
clap = { version = "4", features = ["derive"] }
indicatif = "*"
itertools = "*"
num_cpus = "1"
regex = "1"
thiserror = "*"
tokio = { version = "1", features = ["full"] }
tracing = "0.1"
tracing-subscriber = "0.3"
which = "*"
