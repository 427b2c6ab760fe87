[package]
name = "merge_inl"
version = "0.1.0"
edition = "2021"
publish = false

[dependencies]
regex = "1"
faccess = "*"
log = "0.4"
clap = { version = "4", features = ["derive"] }
