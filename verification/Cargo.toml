[package]
name = "patch_gateway"
version = "0.1.0"
edition = "2021"
publish = false

[dependencies]
chrono = "=0.4.45"
env_logger = "=0.11.11"
skrillax-codec = "=0.1.1"
skrillax-packet = { version = "=0.3.0", features = ["derive"] }
skrillax-protocol = "=0.2.0"
skrillax-serde = { version = "=0.2.0", features = ["derive", "chrono"] }
skrillax-stream = "=0.2.0"
tokio = { version = "=1.54.1", features = ["full"] }
tokio-util = "=0.7.20"
walkdir = "=2.5.0"
