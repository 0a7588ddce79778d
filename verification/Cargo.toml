[package]
name = "mud_perspective"
version = "0.1.0"
edition = "2021"
publish = false

[dependencies]
deunicode = "1"
in_definite = "*"
arc-swap = "1"
serde = { version = "1", features = ["derive"] }
serde_json = "1"
tracing = "0.1"
tracing-subscriber = "0.3"
