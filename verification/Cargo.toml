[package]
name = "herdr_progress"
version = "0.1.0"
edition = "2021"
publish = false

[dependencies]
anyhow = "1"
clap = { version = "4", features = ["derive"] }
fs2 = "*"
jsonc-parser = { version = "=0.34.0", features = ["cst", "serde_json"] }
rusqlite = { version = "=0.41.1", features = ["bundled"] }
serde = { version = "1", features = ["derive"] }
serde_json = "=1.0.154"
toml_edit = "=0.25.17"
unicode-width = "=0.2.3"
uuid = { version = "=1.29.0", features = ["v4"] }

[dev-dependencies]
tempfile = "*"
