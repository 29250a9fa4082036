[package]
name = "cnet"
version = "0.1.1"
edition = "2021"
publish = false

[dependencies]
des = "0.8"
hex = "0.4"
serde = { version = "1", features = ["derive"] }
serde_json = "1"
reqwest = { version = "0.12", default-features = false, features = ["json"] }
tokio = { version = "1", features = ["macros", "rt-multi-thread"] }
clap = { version = "4", features = ["derive"] }
dialoguer = "0.11"
directories = "5"
