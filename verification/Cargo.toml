[package]
name = "subtitle-overlay-desktop"
version = "0.1.0"
edition = "2021"
publish = false

[dependencies]
chrono = "=0.4.45"
directories = "=6.0.0"
fontdb = "=0.24.0"
futures-util = "=0.3.34"
gtk = "0.18"
pangocairo = "0.18"
reqwest = { version = "=0.12.28", features = ["json", "stream"] }
serde = { version = "=1.0.229", features = ["derive"] }
serde_json = "=1.0.154"
tokio = { version = "=1.54.1", features = ["sync", "time", "rt", "macros"] }
url = "=2.5.8"
webkit2gtk = "2.0"
