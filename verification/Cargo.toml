[package]
name = "fucker"
version = "0.1.0"
edition = "2021"
publish = false

[dependencies]
anyhow = "1"
docopt = "1.1"
libc = "0.2"
serde = "1"
serde_derive = "1"
