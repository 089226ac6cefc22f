[package]
name = "lyre_audio"
version = "0.1.0"
edition = "2021"
publish = false

[dependencies]
ringbuf = "=0.4.8"
rubato = "=0.15.0"
walkdir = "=2.5.0"
serde_json = "=1.0.154"
log = "=0.4.34"
serde = "1"
libloading = "0.8"
cpal = "0.15"
