[package]
name = "wmt"
version = "0.1.0"
edition = "2021"
publish = false

[dependencies]
clap = { version = "=3.2.25", features = ["derive"] }
console = "=0.16.6"
crossbeam-queue = "=0.3.14"
dashmap = "=5.5.3"
indicatif = "=0.16.2"
num_cpus = "=1.17.0"
reqwest = "=0.11.27"
synchronoise = "=1.0.1"
thiserror = "=1.0.69"
tl = "=0.7.8"
tokio = { version = "=1.54.1", features = ["rt", "time"] }
url = "=2.5.8"
walkdir = "=2.5.0"
