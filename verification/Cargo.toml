[package]
name = "epub_loader"
version = "0.1.0"
edition = "2021"
publish = false

[dependencies]
rbook = "=0.6.12"
flutter_rust_bridge = "=2.13.0"
