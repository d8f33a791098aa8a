[package]
name = "alauncher"
version = "0.1.0"
edition = "2021"
publish = false

[dependencies]
chrono = "*"
dirs = "*"
open = "*"
zip = { version = "*", default-features = false, features = ["deflate"] }
