[package]
name = "strudel_of_lilypond"
version = "0.1.0"
edition = "2021"
publish = false

[dependencies]
argh = "0.1"
regex = "1"
serde = { version = "1", features = ["derive"] }
serde_yaml = "0.9"
