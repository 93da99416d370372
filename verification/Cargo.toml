[package]
name = "crabmake"
version = "0.1.0"
edition = "2021"
publish = false

[dependencies]
anyhow = "1"
clap = { version = "4", features = ["derive"] }
glob = "0.3"
rayon = "1"
serde = { version = "1", features = ["derive"] }
serde_json = "1"
toml = "*"
which = "*"
