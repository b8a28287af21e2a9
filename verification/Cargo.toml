[package]
name = "fowl"
version = "0.1.0"
edition = "2021"
publish = false

[dependencies]
anyhow = "=1.0.104"
clap = { version = "=4.6.7", features = ["derive"] }
yansi = "=1.0.1"
ariadne = "=0.6.0"
jsonc-parser = { version = "=0.34.0", features = ["serde"] }
serde = { version = "=1.0.229", features = ["derive"] }
serde_json = "=1.0.154"
cranelift = "=0.133.3"
cranelift-codegen = "=0.133.3"
cranelift-module = "=0.133.3"
cranelift-object = "=0.133.3"
target-lexicon = "0.13"
syntree = "=0.19.0"
