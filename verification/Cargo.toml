[package]
name = "click"
version = "0.1.0"
edition = "2021"
publish = false

[dependencies]
ansi_term = "*"
clap = "3"
k8s-openapi = { version = "*", features = ["latest"] }
rustyline = "*"
