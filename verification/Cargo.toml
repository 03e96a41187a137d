[package]
name = "media_core"
version = "0.1.0"
edition = "2021"
publish = false

[dependencies]
path-clean = "*"
num_cpus = "*"
serde = { version = "*", features = ["derive"] }
serde_json = "*"
serde_path_to_error = "*"
rayon = "*"
chrono = "*"
opencv = "*"
