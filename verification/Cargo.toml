[package]
name = "milvue_rs"
version = "0.1.0"
edition = "2021"
publish = false

[dependencies]
uuid = { version = "=1.27.0", features = ["v4"] }
dicom-object = "=0.10.0"
dicom-core = "=0.10.0"
dicom-dictionary-std = "=0.10.0"
reqwest = { version = "=0.12.28", default-features = false, features = ["json", "rustls-tls", "stream"] }
tokio = { version = "=1.53.2", features = ["rt-multi-thread", "macros", "sync", "time", "fs"] }
tokio-util = { version = "*", features = ["io"] }
clap = { version = "=4.6.7", features = ["derive"] }
walkdir = "=2.5.0"
serde = { version = "=1.0.229", features = ["derive"] }
