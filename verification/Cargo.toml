[package]
name = "sshs"
version = "0.1.0"
edition = "2021"
publish = false

[dependencies]
anyhow = "1"
clap = { version = "4", features = ["derive"] }
crossterm = "*"
fuzzy-matcher = "0.3"
glob = "0.3"
handlebars = "*"
itertools = "*"
ratatui = "*"
regex = "1"
serde = { version = "1", features = ["derive"] }
shellexpand = "3"
shlex = "1"
tui-input = "*"
unicode-width = "*"
