[package]
name = "voice_pipeline"
version = "0.1.0"
edition = "2021"
publish = false

[dependencies]
opus2 = { version = "=0.4.0", default-features = false, features = ["backend-mousiki"] }
rubato = "=5.0.1"
cpal = "=0.18.2"
whisper-rs = "=0.16.0"
