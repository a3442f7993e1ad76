[package]
name = "diri-app"
version = "0.1.0"
edition = "2021"
publish = false

[dependencies]
unicode-segmentation = "1"
tokio = { version = "1", features = ["rt-multi-thread", "sync", "time", "macros"] }
