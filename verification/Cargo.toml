[package]
name = "todo_tui"
version = "0.1.0"
edition = "2021"
publish = false

[dependencies]
crossterm = "*"
serde = "*"
serde_derive = "*"
serde_json = "*"
