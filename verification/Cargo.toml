[package]
name = "exclusion_zone"
version = "0.1.0"
edition = "2021"
publish = false

[dependencies]
rand = "0.8"
noise = "0.8"
voronator = "0.2"
nannou_core = "0.19"
rayon = "1"
image = "0.24"
serde = { version = "1", features = ["derive"] }
bincode = "1"
zstd = "0.13"
