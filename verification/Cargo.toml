[package]
name = "watchrun"
version = "0.1.0"
edition = "2021"
publish = false

[dependencies]
glob = "0.3"
ignore = "0.4"
clap = { version = "4", features = ["derive"] }
clearscreen = "*"
command-group = "2"
notify = "4"
signal-hook = "0.3"
tracing = "0.1"
tracing-subscriber = "0.3"
