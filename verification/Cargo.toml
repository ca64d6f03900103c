[package]
name = "katana-render-runtime"
version = "0.1.0"
edition = "2021"
publish = false

[dependencies]
base64 = "=0.23.1"
percent-encoding = "=2.3.2"
taffy = { version = "=0.15.1", features = ["parse"] }
unicode-linebreak = "=0.1.5"
unicode-width = "=0.2.3"
