[package]
name = "osm_resolver"
version = "0.1.0"
edition = "2021"
publish = false

[dependencies]
osmpbf = "*"
osmnodecache = "*"
anyhow = "*"
clap = { version = "*", features = ["derive"] }
rayon = "*"
separator = "*"
