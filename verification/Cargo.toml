[package]
name = "runefix_cli"
version = "0.1.0"
edition = "2021"
publish = false

[dependencies]
anyhow = "=1.0.104"
atty = "=0.2.14"
clap = { version = "=4.6.7", features = ["derive"] }
inquire = "=0.9.4"
runefix-core = { version = "=0.1.10", features = ["policy"] }
unicode-segmentation = "=1.13.3"
