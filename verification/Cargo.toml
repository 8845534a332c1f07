[package]
name = "lpsettings"
version = "0.1.0"
edition = "2021"
publish = false

[dependencies]
ansi_term = "*"
chrono = "*"
clap = "2"
failure = "0.1"
log = "0.4"
pretty_env_logger = "*"
serde = { version = "1", features = ["derive"] }
settingsfile = "*"
toml = "0.4"
updater-lp = "*"
version-lp = "*"
