[package]
name = "styled_text"
version = "0.1.0"
edition = "2021"
publish = false

[dependencies]
levenshtein = "*"
clap = { version = "*", features = ["derive"] }
clap_complete_command = "*"
dirs = "*"
notify-rust = "*"
reqwest = { version = "*", features = ["blocking"] }
semver = "*"
serde = { version = "*", features = ["derive"] }
serde_json = "*"
sysinfo = "*"
toml = "*"
uzers = "*"
