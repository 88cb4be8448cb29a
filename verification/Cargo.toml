[package]
name = "agon_ez80_emulator"
version = "0.1.0"
edition = "2021"
publish = false

[dependencies]
chrono = "0.4"
rand = "0.8"
ez80 = "*"
filetime = "0.2"
pico-args = "0.5"
rustyline = "*"
ctrlc = "3"
inline_colorization = "*"
home = "0.5"
raw_tty = "*"
serialport = { version = "4", default-features = false }
