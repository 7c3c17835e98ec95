[package]
name = "words_count"
version = "0.1.0"
edition = "2021"
publish = false

[dependencies]
unicode-blocks = "0.1"
