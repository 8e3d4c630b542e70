[package]
name = "pipe_dataflow"
version = "0.1.0"
edition = "2021"
publish = false

[dependencies]
clap = { version = "4", features = ["derive"] }
command-fds = "0.2"
os_pipe = "1"
