[package]
name = "video_metadata"
version = "0.1.0"
edition = "2021"
publish = false

[dependencies]
mp4parse = "=0.12.1"
ogg_metadata = "=0.4.1"
libc = "=0.2.190"
