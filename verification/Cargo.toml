[package]
name = "file_search"
version = "0.1.0"
edition = "2021"
publish = false

[dependencies]
async-recursion = "1"
crossbeam = "0.8"
num_cpus = "1"
structopt = "0.3"
tokio = { version = "1", features = ["fs", "io-util", "macros", "rt-multi-thread"] }
