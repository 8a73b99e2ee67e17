[package]
name = "workty"
version = "0.1.0"
edition = "2021"
publish = false

[dependencies]
anyhow = "*"
clap = { version = "*", features = ["derive", "env"] }
clap_complete = "*"
clap_mangen = "*"
dialoguer = { version = "*", features = ["fuzzy-select"] }
dirs = "*"
is-terminal = "*"
owo-colors = "*"
rayon = "*"
serde = { version = "*", features = ["derive"] }
serde_json = "*"
