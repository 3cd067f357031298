[package]
name = "inwx"
version = "0.1.0"
edition = "2021"
publish = false

[dependencies]
xmlrpc = { version = "=0.15.1", default-features = false }
reqwest = { version = "=0.13.5", default-features = false, features = ["blocking", "cookies"] }
