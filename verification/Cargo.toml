[package]
name = "script_merger"
version = "0.1.0"
edition = "2021"
publish = false

[dependencies]
clap = "2"
difference = "2"
diffy = "*"
encoding_rs_io = "*"
notify = "4"
serde = { version = "1", features = ["derive"] }
serde_json = "1"
walkdir = "2"
