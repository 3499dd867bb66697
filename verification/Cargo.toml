[package]
name = "blinkt"
version = "0.5.0"
edition = "2021"

[dependencies]
quick-error = "=1.2.3"
rppal = "=0.9.0"
