[package]
name = "protean"
version = "0.1.0"
edition = "2021"
publish = false

[dependencies]
yoke = { version = "*", features = ["derive"] }
stable_deref_trait = "*"
serde = { version = "*", features = ["derive"] }
delegate = "*"
