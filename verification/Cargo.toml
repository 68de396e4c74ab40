[package]
name = "textgen"
version = "0.1.0"
edition = "2021"
publish = false

[dependencies]
anyhow = "*"
clap = { version = "*", default-features = false, features = ["derive", "std", "help", "usage"] }
csv = "*"
serde_json = "*"
tokenizers = { version = "*", default-features = false, features = ["onig"] }
