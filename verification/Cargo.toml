[package]
name = "meilisearch_cli"
version = "0.2.0"
edition = "2021"
publish = false

[dependencies]
chrono = "0.4"
serde = { version = "1", features = ["derive"] }
serde_json = "1"
serde_yaml = "0.8"
yaml-rust = "0.4"
frontmatter = "0.4"
uuid = { version = "1", features = ["serde", "v4"] }
uuid-b64 = "0.2"
reqwest = { version = "0.11", default-features = false, features = ["blocking"] }
url = "2"
glob = "0.3"
shellexpand = "2"
structopt = "0.3"
termion = "1.5"
tui = { version = "0.19", default-features = false, features = ["termion"] }
unicode-width = "0.1"
color-eyre = "0.6"
eyre = "0.6"
