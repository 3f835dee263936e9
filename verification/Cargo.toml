[package]
name = "admin_client"
version = "0.1.0"
edition = "2021"
publish = false

[dependencies]
clear_screen = "*"
reqwest = { version = "*", default-features = false, features = ["blocking"] }
rustyline = "*"
