[package]
name = "sugoroku"
version = "0.1.0"
edition = "2021"
publish = false

[dependencies]
anyhow = "1"
clap = { version = "3", features = ["derive"] }
clap_complete = "3"
serde = "1"
serde_derive = "1"
termion = "1.5"
thiserror = "1"
toml = "0.7"
tui = { version = "0.19", default-features = false, features = ["termion"] }
