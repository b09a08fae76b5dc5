[package]
name = "word_cache"
version = "0.1.0"
edition = "2021"
publish = false

[dependencies]
anyhow = "1"
bincode = "1.3"
directories-next = "2"
serde = "1"
serde_json = "1"
