[package]
name = "nexus_tui"
version = "0.1.0"
edition = "2021"
publish = false

[dependencies]
aes = "0.8"
anyhow = "1"
base64 = "0.22"
chrono = { version = "0.4", default-features = false, features = ["clock", "std"] }
crossterm = "0.28"
ctr = "0.9"
directories = "6"
futures-util = "0.3"
image = { version = "0.25", default-features = false, features = ["jpeg", "png"] }
ratatui = "0.29"
ratatui-image = { version = "8", default-features = false, features = ["crossterm"] }
reqwest = { version = "0.12", default-features = false, features = ["json", "rustls-tls"] }
rusqlite = { version = "0.32", features = ["bundled"] }
serde = { version = "1", features = ["derive"] }
serde_json = "1"
sha2 = "0.10"
strum = { version = "0.26", features = ["derive"] }
tokio = { version = "1", features = ["full"] }
toml = "0.8"
urlencoding = "2"
