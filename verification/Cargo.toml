[package]
name = "umbrella"
version = "0.1.0"
edition = "2021"
publish = false

[dependencies]
anyhow = "=1.0.104"
cargo_toml = "=0.22.3"
clap = { version = "=3.2.25", features = ["derive"] }
git2 = "=0.18.3"
text_io = "=0.1.13"
toml = "=0.8.23"
