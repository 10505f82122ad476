[package]
name = "rust_raspi_led_strip"
version = "0.1.0"
edition = "2021"
publish = false

[dependencies]
rppal = "*"
