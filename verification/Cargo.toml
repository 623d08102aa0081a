[package]
name = "anytimeuniverse"
version = "0.1.0"
edition = "2021"
publish = false

[dependencies]
crossterm = "*"
egui = { version = "*", default-features = false }
