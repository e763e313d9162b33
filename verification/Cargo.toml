[package]
name = "resume_tui"
version = "0.1.0"
edition = "2021"
publish = false

[dependencies]
termion = "=4.0.6"

[dependencies.tui]
version = "=0.19.0"
features = ["termion"]
