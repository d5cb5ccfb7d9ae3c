[package]
name = "status_deco"
version = "0.1.0"
edition = "2021"
publish = false

[dependencies]
lscolors = { version = "*", features = ["nu-ansi-term"] }

[dev-dependencies]
regex = "1"
