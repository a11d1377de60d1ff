[package]
name = "bindiff"
version = "0.1.0"
edition = "2021"
publish = false

[dependencies]
anyhow = "1"
blake3 = "1"
clap = { version = "4", features = ["derive"] }
colored = "2"
goblin = "*"
indicatif = "*"
memmap2 = "*"
petgraph = "*"
serde = { version = "1", features = ["derive"] }
serde_json = "1"
similar = "*"
yaxpeax-arch = "*"
yaxpeax-x86 = "*"
