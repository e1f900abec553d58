[package]
name = "pretty_size"
version = "1.1.0"
edition = "2021"
publish = false

[dependencies]
clap = "=4.6.7"
color-eyre = "=0.6.5"
colored = "=2.2.0"
elf = "=0.7.4"
ldscript-parser = "=0.3.0"
path-clean = "=1.0.1"
serde = { version = "=1.0.229", features = ["derive"] }
serde_json = "=1.0.154"
