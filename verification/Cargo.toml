[package]
name = "asp_extract"
version = "0.1.0"
edition = "2021"
publish = false

[dependencies]
clingo = { version = "*", features = ["derive"] }
log = "0.4"
