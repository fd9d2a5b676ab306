[package]
name = "zfilter"
version = "0.1.0"
edition = "2021"
publish = false

[dependencies]
regex = "1"
zstd = "0.13"
clap = { version = "4", features = ["derive"] }
colored = "2"
indicatif = "0.17"
rayon = "1"
serde = { version = "1", features = ["derive"] }
sysinfo = "0.30"
terminal_size = "0.3"
toml = "0.8"
