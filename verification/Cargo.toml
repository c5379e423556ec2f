[package]
name = "term_streamer"
version = "0.1.0"
edition = "2021"
publish = false

[dependencies]
fst = { version = "0.3", default-features = false }
