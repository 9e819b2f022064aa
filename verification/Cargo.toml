[package]
name = "pdf_process"
version = "0.1.0"
edition = "2021"
publish = false

[dependencies]
futures = "0.3"
futures-util = "0.3"
image = { version = "0.25", default-features = false, features = ["jpeg", "png", "tiff"] }
thiserror = "1"
tokio = { version = "1", features = ["io-util", "process"] }
