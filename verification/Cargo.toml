[package]
name = "touchscreen-instrument"
version = "0.1.0"
edition = "2021"
publish = false

[dependencies]
chrono = "=0.4.45"
clap = "=2.34.0"
custom_derive = "=0.1.7"
enum_derive = "=0.1.7"
evdev-rs = "=0.4.0"
jack = "=0.7.3"
nix = "=0.20.2"
palette = "=0.5.0"
rand = "=0.7.3"
sdl2 = { version = "=0.32.2", features = ["gfx"] }
skipchannel = "=2.0.1"
tempdir = "=0.3.7"
