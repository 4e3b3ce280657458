[package]
name = "taskmaster"
version = "0.1.0"
edition = "2021"
publish = false

[dependencies]
nix = { version = "*", features = ["signal", "process"] }
libc = "*"
serde = { version = "*", features = ["derive"] }
serde_yaml = "*"
chrono = "*"
signal-hook = "*"
once_cell = "*"
reedline-repl-rs = "*"
