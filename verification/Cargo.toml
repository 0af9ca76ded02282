[package]
name = "xf-typegen"
version = "0.1.0"
edition = "2021"
publish = false

[dependencies]
anyhow = "1"
clap = { version = "4", features = ["derive"] }
indexmap = { version = "2", features = ["serde"] }
notify = "*"
notify-debouncer-mini = "*"
serde = { version = "1", features = ["derive"] }
serde_json = "1"
