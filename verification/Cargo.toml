[package]
name = "drg_porep"
version = "0.1.0"
edition = "2021"
publish = false
