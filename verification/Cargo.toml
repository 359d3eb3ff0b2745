[package]
name = "jsvm"
version = "0.1.0"
edition = "2021"
publish = false

[dependencies]
ansi_term = "=0.12.1"
num-traits = "=0.2.19"
rustyline = "=18.0.1"
