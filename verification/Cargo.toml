[package]
name = "dcr_transcribe"
version = "0.1.0"
edition = "2021"
publish = false

[dependencies]
anyhow = "=1.0.104"
async-stream = "=0.3.6"
async-trait = "=0.1.92"
aws-config = { version = "1", default-features = false, features = ["behavior-version-latest", "rt-tokio"] }
aws-sdk-transcribestreaming = { version = "1", default-features = false, features = ["rt-tokio"] }
aws-smithy-types = "1"
chrono = "=0.4.45"
cpal = "0.15"
crossterm = "=0.28.1"
ctrlc = "=3.5.2"
env_logger = "=0.11.11"
flacenc = { version = "=0.4.0", default-features = false }
hound = "=3.5.1"
log = "=0.4.34"
nix = { version = "=0.29.0", features = ["signal"] }
ratatui = "=0.29.0"
regex-lite = "=0.1.9"
reqwest = { version = "0.12", default-features = false, features = ["json", "multipart", "rustls-tls"] }
serde = { version = "=1.0.229", features = ["derive"] }
serde_json = "=1.0.154"
tokio = { version = "=1.54.1", features = ["full"] }
toml = "=0.8.23"

[dev-dependencies]
claxon = "=0.4.3"
