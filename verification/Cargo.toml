[package]
name = "pulse_player"
version = "0.1.0"
edition = "2021"
publish = false

[dependencies]
base64 = "=0.22.1"
urlencoding = "=2.1.3"
symphonia = "=0.5.5"
id3 = "=1.17.2"
tiny_http = "=0.12.0"
portpicker = "=0.1.1"
serde = { version = "=1.0.229", features = ["derive"] }
serde_json = "=1.0.154"
dirs = "=6.0.0"
log = "=0.4.35"
once_cell = "=1.21.4"
env_logger = "=0.11.11"
