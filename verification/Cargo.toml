[package]
name = "pm3"
version = "0.1.0"
edition = "2021"
publish = false

[dependencies]
shell-words = "=1.1.1"
tokio = { version = "=1.54.1", features = ["full"] }
color-eyre = "=0.6.5"
clap = { version = "=4.6.7", features = ["derive"] }
thiserror = "=2.0.21"
nix = { version = "=0.31.3", features = ["signal", "process"] }
serde = { version = "1", features = ["derive"] }
toml = "0.8"
