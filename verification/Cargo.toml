[package]
name = "audio_core"
version = "0.1.0"
edition = "2021"
publish = false

[dependencies]
symphonia = "0.5"
rodio = "0.19"
walkdir = "2"
dirs = "5"
