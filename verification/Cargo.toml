[package]
name = "matrix_rain"
version = "0.1.0"
edition = "2021"
publish = false

[dependencies]
fastrand = "2"
instant = "0.1"
serde = { version = "1", features = ["derive"] }
serde_yaml = "0.9"
macroquad = { version = "0.4", default-features = false }
