[package]
name = "srg-core"
version = "0.1.0"
edition = "2021"
publish = false

[dependencies]
num-rational = "0.4"
serde_json = "1"
serde = { version = "1", features = ["derive"] }
thiserror = "2"
anyhow = "1"
clap = { version = "4", features = ["derive"] }
