[package]
name = "overstory"
version = "0.1.0"
edition = "2021"
publish = false

[dependencies]
kurbo = "*"
peniko = "*"
ui-events = "*"
