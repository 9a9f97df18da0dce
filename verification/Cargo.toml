[package]
name = "sketchybar_now_playing"
version = "0.1.0"
edition = "2021"
publish = false

[dependencies]
clap = { version = "4", features = ["derive"] }
ctrlc = "3"
media-remote = "*"
serde = { version = "1", features = ["derive"] }
serde_json = "1"
toml = "*"
