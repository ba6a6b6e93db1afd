[package]
name = "uppy"
version = "0.1.0"
edition = "2021"
publish = false

[dependencies]
md-5 = "*"
clipboard-win = "*"
reqwest = { version = "*", default-features = false, features = ["blocking", "multipart", "rustls-tls"] }
