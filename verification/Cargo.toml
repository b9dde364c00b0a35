[package]
name = "macro_commands"
version = "0.1.0"
edition = "2021"
publish = false

[dependencies]
tokio = { version = "1", default-features = false, features = ["process", "rt", "rt-multi-thread"] }
