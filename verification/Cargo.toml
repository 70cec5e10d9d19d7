[package]
name = "bamkit"
version = "0.1.0"
edition = "2021"
publish = false

[dependencies]
anyhow = "=1.0.104"
clap = { version = "=4.6.7", features = ["derive"] }
crossbeam = "=0.8.5"
noodles = { version = "=0.117.0", features = ["bam", "bgzf", "core", "sam"] }
rust-lapper = "=1.3.0"
serde = { version = "=1.0.229", features = ["derive"] }
