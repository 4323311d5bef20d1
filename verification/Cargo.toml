[package]
name = "evo_image"
version = "0.1.0"
edition = "2021"
publish = false

[dependencies]
rand = "*"
genetica = "*"
image = "*"
serde = { version = "*", features = ["derive"] }
toml = "*"
rayon = "*"
