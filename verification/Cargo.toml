[package]
name = "zytunes_tui"
version = "0.1.0"
edition = "2021"
publish = false

[dependencies]
arboard = { version = "3", default-features = false }
crossterm = "*"
image = { version = "0.25", default-features = false, features = ["jpeg", "png"] }
ratatui = "*"
throbber-widgets-tui = "*"
