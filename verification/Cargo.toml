[package]
name = "presenterm"
version = "0.1.0"
edition = "2021"
publish = false

[dependencies]
itertools = "0.12"
merge-struct = "0.1"
serde = { version = "1", features = ["derive"] }
serde_yaml = "0.9"
syntect = { version = "5", default-features = false, features = ["default-fancy"] }
thiserror = "1"
unicode-width = "0.1"
