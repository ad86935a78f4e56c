[package]
name = "ms_pdb"
version = "0.1.0"
edition = "2021"
publish = false

[dependencies]
bstr = "=1.13.1"
pretty-hex = "=0.4.2"
uuid = "=1.29.0"
clap = { version = "=4.6.7", features = ["derive"] }
anyhow = "=1.0.104"
regex = "1"
