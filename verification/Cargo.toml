[package]
name = "embed-bench"
version = "0.1.0"
edition = "2021"
publish = false

[dependencies]
anyhow = "=1.0.104"
camino = "=1.2.6"
clap = { version = "=4.6.7", features = ["derive"] }
dunce = "=1.0.5"
fastembed = { version = "~5.0", default-features = false, features = ["ort-load-dynamic"] }
hf-hub = { version = "=0.4.3", default-features = false, features = ["tokio", "rustls-tls"] }
ort = { version = "=2.0.0-rc.10", default-features = false, features = ["std", "load-dynamic", "cuda", "directml", "coreml", "openvino", "xnnpack"] }
serde_json = "=1.0.154"
tokio = { version = "=1.54.1", features = ["macros", "rt-multi-thread", "sync", "fs"] }
tracing-subscriber = "=0.3.23"
unicode-segmentation = "=1.13.3"
