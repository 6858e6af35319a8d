[package]
name = "stack"
version = "0.1.0"
edition = "2021"
publish = false

[dependencies]
clap = { version = "4", features = ["derive"] }
codespan-reporting = "*"
crossterm = "*"
notify = "*"
reedline = "*"
rustyline = "*"
