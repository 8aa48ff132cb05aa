[package]
name = "minidump_writer"
version = "0.1.0"
edition = "2021"
publish = false

[dependencies]
nix = { version = "*", features = ["ptrace", "signal", "process"] }
procfs-core = "*"

[dev-dependencies]
minidump-common = "*"
