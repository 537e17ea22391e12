[package]
name = "spklr"
version = "0.1.0"
edition = "2021"
publish = false

[dependencies]
indexmap = "*"
schematic = "*"
schematic_types = "*"
clap = { version = "*", features = ["derive"] }
miette = "*"
tokio = { version = "*", features = ["fs", "rt", "macros"] }
