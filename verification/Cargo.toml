[package]
name = "rastreador"
version = "0.1.0"
edition = "2021"
publish = false

[dependencies]
clap = { version = "*", features = ["derive"] }
nix = { version = "*", features = ["process", "ptrace", "signal"] }
prettytable-rs = "*"
