[package]
name = "freya_terminal"
version = "0.1.0"
edition = "2021"
publish = false

[dependencies]
anyhow = "1"
blocking = "1"
futures-channel = "0.3"
futures-lite = "2"
keyboard-types = "0.8"
libc = "0.2"
portable-pty = "0.9"
termwiz = "0.23"
vt100 = "0.16"
