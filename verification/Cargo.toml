[package]
name = "dscale"
version = "0.1.0"
edition = "2021"
publish = false

[dependencies]
bytes = "1"
priority-queue = "2"
rayon = "1"
