[package]
name = "prompts-cli"
version = "0.1.0"
edition = "2021"
publish = false

[dependencies]
sha2 = "0.10"
fuzzy-matcher = "0.3"
tera = { version = "1", default-features = false }
serde = { version = "1", features = ["derive"] }
serde_json = "1"
anyhow = "1"
thiserror = "1"
async-trait = "0.1"
clap = { version = "4", features = ["derive"] }
config = { version = "0.14", default-features = false, features = ["toml"] }
dirs = "5"
tokio = { version = "1", features = ["fs", "macros", "rt-multi-thread"] }
libsql = { version = "*", default-features = false, features = ["core"] }
ratatui = "0.26"
crossterm = "0.27"
