[package]
name = "syncy"
version = "0.1.0"
edition = "2021"
publish = false

[dependencies]
glob = "=0.3.4"
regex = "=1.13.1"
serde = { version = "*", features = ["derive"] }
serde_json = "*"
serde_yaml = "*"
anyhow = "*"
clap = { version = "*", features = ["derive"] }
tokio = { version = "*", features = ["macros", "rt-multi-thread"] }
octocrab = "=0.40.0"
async-trait = "*"
async-recursion = "*"
base64 = "*"
reqwest = { version = "*", default-features = false }
wiremock = "*"
