[package]
name = "sa_core"
version = "0.1.0"
edition = "2021"
publish = false

[dependencies]
regex = "=1.13.1"
sanitize-filename = "=0.4.0"
lol_html = "=1.2.1"
html2text = "=0.6.0"
fake = "=2.10.0"
htmlescape = "=0.3.1"
retry-policies = "=0.1.2"
tokio = { version = "=1.54.1", features = ["full"] }
reqwest = { version = "=0.11.27", default-features = false, features = ["json", "stream", "rustls-tls"] }
reqwest-middleware = "=0.2.5"
reqwest-retry = "=0.2.3"
futures-retry-policies = { version = "=0.3.1", features = ["retry-policies"] }
leaky-bucket = "=1.1.2"
task-local-extensions = "=0.1.4"
async-trait = "=0.1.92"
chrono = "=0.4.45"
handlebars = "=4.5.0"
tar = "=0.4.46"
flate2 = "=1.1.10"
tempfile = "=3.27.0"
bytes = "=1.12.1"
futures = "=0.3.34"
serde = { version = "=1.0.229", features = ["derive"] }
serde_json = "=1.0.154"
scopeguard = "=1.2.0"
clap = { version = "=4.6.7", features = ["derive"] }
anyhow = "=1.0.104"
