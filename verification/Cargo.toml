[package]
name = "numbat_session"
version = "0.1.0"
edition = "2021"
publish = false

[dependencies]
numbat = { version = "=1.24.0", default-features = false }
