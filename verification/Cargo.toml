[package]
name = "gmodpatchtool"
version = "0.1.0"
edition = "2021"
publish = false

[dependencies]
bitcode = { version = "=0.6.9", features = ["derive"] }
futures = "=0.3.34"
tokio = { version = "1", features = ["net", "fs", "io-util", "sync", "time", "macros", "rt-multi-thread"] }
tokio-util = { version = "=0.7.20", features = ["codec"] }
windows-sys = { version = "=0.59.0", features = ["Win32_Foundation"] }
