[package]
name = "infy"
version = "0.1.0"
edition = "2021"
publish = false

[dependencies]
minijinja = "2"
minijinja-contrib = { version = "2", features = ["pycompat"] }
serde = { version = "1", features = ["derive"] }
serde_json = "1"
clap = { version = "4", features = ["derive", "env"] }
dirs = "*"
ureq = "3"
ctrlc = "3"
