[package]
name = "metronome"
version = "0.1.0"
edition = "2021"
publish = false

[dependencies]
colorful = "*"
cpal = "*"
getopts = "*"
termios = "*"
