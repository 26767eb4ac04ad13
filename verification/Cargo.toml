[package]
name = "preview_core"
version = "0.1.0"
edition = "2021"
publish = false

[dependencies]
serde_json = "=1.0.151"
chrono = "=0.4.45"
serde = { version = "=1.0.229", features = ["derive"] }
tokio = { version = "=1.53.2", features = ["process", "io-util", "sync", "time", "rt-multi-thread", "macros"] }
typst = "=0.14.2"
typst-kit = { version = "=0.14.2", default-features = false, features = ["fonts"] }
typst-svg = "=0.14.2"
typst-pdf = "=0.14.2"
