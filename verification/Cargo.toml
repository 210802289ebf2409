[package]
name = "rstype"
version = "0.1.0"
edition = "2021"
publish = false

[dependencies]
chrono = "0.4"
clap = { version = "4", features = ["derive"] }
csv = "1"
home = "0.5"
log = "0.4"
open = "5"
pancurses = "0.17"
rand = "0.8"
sqlite = "*"
