[package]
name = "tuicr_view"
version = "0.1.0"
edition = "2021"
publish = false

[dependencies]
ratatui = { version = "0.29", default-features = false, features = ["unstable-rendered-line-info"] }
unicode-width = "0.2"
pulldown-cmark = { version = "0.13", default-features = false }
