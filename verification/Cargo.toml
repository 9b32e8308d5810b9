[package]
name = "phylum_ext"
version = "0.1.0"
edition = "2021"
publish = false

[dependencies]
ansi_term = "*"
anyhow = "*"
clap = "*"
dialoguer = "*"
log = "*"
serde = { version = "*", features = ["derive"] }
toml = "*"
