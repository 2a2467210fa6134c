[package]
name = "aginxbrowser"
version = "0.1.0"
edition = "2021"
publish = false

[dependencies]
url = "2"
scraper = "*"
html2md = "*"
axum = "*"
tokio = { version = "1", features = ["full"] }
serde = { version = "1", features = ["derive"] }
serde_json = "1"
anyhow = "1"
async-trait = "*"
tracing = "*"
tracing-subscriber = "*"
deno_core = "*"
