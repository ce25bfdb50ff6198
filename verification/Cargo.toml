[package]
name = "sound_editor"
version = "0.1.0"
edition = "2021"
publish = false

[dependencies]
cpal = "0.15"
hound = "3.5"
rfd = "0.12"
