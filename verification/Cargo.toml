[package]
name = "fern"
version = "0.1.0"
edition = "2021"
publish = false

[dependencies]
nix = { version = "0.29", features = ["fs", "process", "signal", "term", "user", "hostname"] }
rustyline = "15"
