[package]
name = "abelscreensaver"
version = "0.1.0"
edition = "2021"
publish = false

[dependencies]
walkdir = "*"
mime_guess = "*"
rand = "*"
ffprobe = "*"
directories = "*"
serde = { version = "*", features = ["derive"] }
serde_json = "*"

[dev-dependencies]
tempfile = "*"
