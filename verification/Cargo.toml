[package]
name = "edifact"
version = "0.1.0"
edition = "2021"
publish = false

[dependencies]
clap = { version = "4", features = ["derive"] }
itertools = "0.10"
nom = "7"
serde = { version = "1", features = ["derive"] }

[dev-dependencies]
combine = "4"
