[package]
name = "ffservice"
version = "0.1.0"
edition = "2021"
publish = false

[dependencies]
anyhow = "=1.0.104"
async-stream = "=0.3.6"
ffmpeg-next = "=9.0.0"
futures-core = "=0.3.34"
image = { version = "=0.25.10", default-features = false, features = ["jpeg"] }
prost = "=0.12.6"
tempfile = "=3.27.0"
tokio = { version = "=1.54.1", features = ["macros", "rt-multi-thread"] }
tokio-stream = "=0.1.19"
tonic = "=0.11.0"
