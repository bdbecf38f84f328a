[package]
name = "yafsh"
version = "0.4.0"
edition = "2021"
publish = false

[dependencies]
rustyline = "15"
