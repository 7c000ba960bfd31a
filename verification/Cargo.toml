[package]
name = "parrot"
version = "0.1.0"
edition = "2021"
publish = false

[dependencies]
anyhow = "1"
serde = { version = "1", features = ["derive"] }
serde_json = "1"
hound = "3"
ureq = "3"
parking_lot = "0.12"
arboard = "3"
enigo = "0.6"
cpal = "0.15"
whisper-rs = "0.15"
global-hotkey = "0.7"
