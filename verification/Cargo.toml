[package]
name = "tool_registry"
version = "0.1.0"
edition = "2021"
publish = false

[dependencies]
clap = { version = "4", features = ["derive"] }
color-print = "0.3"
eyre = "0.6"
itertools = "0.13"
once_cell = "1"
strum = { version = "0.26", features = ["derive"] }
tabled = "0.17"
url = "2"
