[package]
name = "pathtrace"
version = "0.1.0"
edition = "2021"
publish = false

[dependencies]
clap = { version = "4", features = ["derive"] }
rand = "0.7"
serde = { version = "1", features = ["derive"] }
serde_json = "1"
typetag = "0.2"
