[package]
name = "arraxis"
version = "0.1.0"
edition = "2021"
publish = false
