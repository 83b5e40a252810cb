[package]
name = "pdf_summary"
version = "0.1.0"
edition = "2021"
publish = false

[dependencies]
anyhow = "=1.0.104"
async-openai = "=0.10.3"
clap = { version = "=4.6.7", features = ["derive"] }
dotenvy = "=0.15.7"
env_logger = "=0.10.2"
log = "=0.4.34"
pdf-extract = "=0.12.1"
reqwest = "=0.11.27"
tiktoken-rust = "=0.2.1"
tokio = { version = "=1.54.1", features = ["full"] }

[dev-dependencies]
fancy-regex = "=0.11.0"
