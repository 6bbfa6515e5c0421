[package]
name = "todo_list"
version = "0.1.0"
edition = "2021"
publish = false

[dependencies]
chrono = { version = "0.4", features = ["serde"] }
clap = { version = "4", features = ["derive"] }
console = "0.15"
dialoguer = "0.10"
dirs = "5"
humantime = "2"
serde = { version = "1", features = ["derive"] }
serde_yaml = "0.9"
termsize = "0.1"
