[package]
name = "music_lib_manager"
version = "0.1.0"
edition = "2021"
publish = false

[dependencies]
clap = { version = "*", features = ["derive"] }
daemonize = "*"
home = "*"
id3 = "*"
lofty = "*"
rodio = "*"
serde = { version = "*", features = ["derive"] }
serde_json = "*"
walkdir = "*"
