[package]
name = "flash_lso"
version = "0.1.0"
edition = "2021"
publish = false
