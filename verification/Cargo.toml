[package]
name = "che_tauri"
version = "0.1.0"
edition = "2021"
publish = false

[dependencies]
serde = { version = "1", features = ["derive"] }
serde_json = "1"
thiserror = "*"
toml = "*"
clap = { version = "4", features = ["derive"] }
async-trait = "*"
reqwest = { version = "*", default-features = false, features = ["json"] }
che-orm = "*"
