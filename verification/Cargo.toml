[package]
name = "gh_lsp"
version = "0.1.0"
edition = "2021"
publish = false

[dependencies]
dashmap = "=6.2.1"
select = "=0.6.1"
octocrab = "=0.41.2"
reqwest = { version = "=0.13.5", default-features = false }
tokio = { version = "=1.53.2", features = ["full"] }
tower-lsp = "=0.20.0"
serde_json = "=1.0.151"
tracing-subscriber = "=0.3.23"
