[package]
name = "wavora"
version = "0.1.0"
edition = "2021"
publish = false

[dependencies]
uuid = { version = "1", features = ["v4", "serde"] }
serde = { version = "1", features = ["derive"] }
serde_json = "1"
thiserror = "2"
directories = "6"
rusqlite = { version = "*", features = ["bundled"] }
walkdir = "2"
blake3 = "1"
symphonia = "0.5"
rusty-chromaprint = "*"
crossbeam-channel = "0.5"
rodio = { version = "*", default-features = false, features = ["symphonia-all"] }
image = { version = "0.25", default-features = false, features = ["png", "jpeg"] }
