[package]
name = "mutter"
version = "0.1.0"
edition = "2021"
publish = false

[dependencies]
serde = { version = "1", features = ["derive"] }
ureq = { version = "2", default-features = false }
num_cpus = "1"
rodio = { version = "*", default-features = false }
whisper-rs = "*"
