[package]
name = "tram_btrfs"
version = "0.1.0"
edition = "2021"
publish = false

[dependencies]
regex = "*"
nix = { version = "*", features = ["user", "mount", "fs"] }
time = { version = "*", features = ["local-offset", "macros", "formatting"] }
ratatui = "*"
crossterm = "*"
clap = { version = "*", features = ["derive"] }
clap_complete = "*"
color-eyre = "*"
tracing-error = "*"
tracing-subscriber = "*"
serde = { version = "*", features = ["derive"] }
toml = "*"
thiserror = "*"
file-lock = "*"
