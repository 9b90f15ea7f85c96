[package]
name = "keymute"
version = "0.1.0"
edition = "2021"
publish = false

[dependencies]
clap = "4"
evdev = "0.12"
libc = "0.2"
libspa = "0.7"
libspa-sys = "0.7"
pipewire = "0.7"
pipewire-sys = "0.7"
