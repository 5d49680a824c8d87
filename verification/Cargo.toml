[package]
name = "fs_kitty"
version = "0.1.0"
edition = "2021"
publish = false

[dependencies]
facet = "=0.43.2"
once_cell = "=1.21.4"
rapace = "=0.5.0"
roam = "=0.6.0"
roam-codegen = "=0.6.0"
roam-stream = "=0.6.0"
swift-bridge = { version = "=0.1.59", features = ["async"] }
tokio = { version = "=1.54.1", features = ["full"] }
tracing = "=0.1.44"
tracing-subscriber = { version = "=0.3.23", features = ["env-filter"] }
