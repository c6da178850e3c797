[package]
name = "lau-reward-hacking-detector"
version = "0.1.0"
edition = "2021"
publish = false

[dependencies]
nalgebra = "0.33"
serde = { version = "1", features = ["derive"] }

[dev-dependencies]
serde_json = "1"
