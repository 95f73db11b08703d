[package]
name = "overmax"
version = "0.1.0"
edition = "2021"
publish = false

[dependencies]
serde = { version = "1", features = ["derive"] }
serde_json = "1"
strsim = "0.11"
rusqlite = { version = "*", features = ["bundled"] }
x11rb = { version = "*", features = ["composite", "shm"] }
memmap2 = "0.9"
