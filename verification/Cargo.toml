[package]
name = "pible"
version = "0.1.0"
edition = "2021"
publish = false

[dependencies]
anyhow = "1"
clap = "4"
serde_json = "1"
thiserror = "1"
