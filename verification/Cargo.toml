[package]
name = "cfb"
version = "0.1.0"
edition = "2021"
publish = false

[dependencies]
flatbuffers = "=0.8.4"
Inflector = "=0.11.4"
handlebars = "=6.4.4"
serde = { version = "=1.0.229", features = ["derive"] }
serde_json = "=1.0.154"
clap = { version = "=4.6.7", features = ["derive"] }
