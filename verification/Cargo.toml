[package]
name = "template_builder"
version = "0.1.0"
edition = "2021"
publish = false

[dependencies]
chrono = { version = "0.4", default-features = false, features = ["std", "clock"] }
timeago = { version = "0.4", default-features = false }
pest = { version = "2", default-features = false, features = ["std"] }
