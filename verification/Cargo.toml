[package]
name = "mobdtimer"
version = "0.1.0"
edition = "2021"
publish = false

[dependencies]
anyhow = "=1.0.104"
chrono = "=0.4.45"
eventsource = "=0.5.0"
firebase-rs = "=1.0.3"
git2 = "=0.21.0"
reqwest = "=0.10.10"
serde_json = "=1.0.151"
