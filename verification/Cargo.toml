[package]
name = "sample_downloader"
version = "0.1.0"
edition = "2021"
publish = false

[dependencies]
symphonia = { version = "0.5", features = ["aac", "isomp4", "mp3"] }
mp3lame-encoder = "*"
regex = "1"
serde = { version = "1", features = ["derive"] }
serde_json = "1"
dirs = "*"
id3 = "1"
rusqlite = { version = "*", features = ["bundled"] }
reqwest = { version = "0.12", features = ["blocking", "json"] }
uuid = { version = "1", features = ["v4"] }
lazy_static = "1"
pyo3 = { version = "0.23", features = ["auto-initialize"] }
