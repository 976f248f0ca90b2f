[package]
name = "balena_migrate"
version = "0.1.0"
edition = "2021"
publish = false

[dependencies]
chrono = "=0.4.45"
flate2 = "=1.1.10"
libc = "=0.2.191"
nix = { version = "=0.31.3", features = ["mount", "user"] }
serde = { version = "1", features = ["derive"] }
serde_yaml = "0.9"
