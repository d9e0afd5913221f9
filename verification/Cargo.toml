[package]
name = "ostep_fetch"
version = "0.1.0"
edition = "2021"
publish = false

[dependencies]
regex = "1"
rayon = "1"
reqwest = { version = "0.12", default-features = false, features = ["blocking"] }
