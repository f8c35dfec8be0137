[package]
name = "sonetto"
version = "0.1.0"
edition = "2021"
publish = false

[dependencies]
byteorder = "1"
serde_json = "1"
anyhow = "1"
walkdir = "2"
tokio = { version = "1", features = ["rt-multi-thread", "net", "io-util", "macros", "sync"] }
