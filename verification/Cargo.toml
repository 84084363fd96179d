[package]
name = "hermes"
version = "0.1.0"
edition = "2021"
publish = false

[dependencies]
clap = { version = "4", features = ["derive"] }
clap-repl = "*"
colored = "2"
directories = "5"
inquire = "*"
serde = { version = "1", features = ["derive"] }
serde_json = "1"
