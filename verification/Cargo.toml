[package]
name = "tui"
version = "0.1.0"
edition = "2021"
publish = false

[dependencies]
unicode-width = "*"
rustc-hash = "*"
once_cell = "1"
crossterm = "*"
syntect = { version = "5", default-features = false, features = ["default-syntaxes", "default-themes", "regex-fancy", "parsing"] }
smallvec = "1"
