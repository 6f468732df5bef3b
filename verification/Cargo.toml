[package]
name = "lan_audio_streamer"
version = "0.1.0"
edition = "2021"
publish = false

[dependencies]
crossbeam = "0.8"
serde = { version = "1", features = ["derive"] }
serde_json = "1"
anyhow = "1"
ctrlc = "3"
socket2 = "*"
toml = "*"
directories = "*"
