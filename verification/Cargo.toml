[package]
name = "modulator"
version = "0.1.0"
edition = "2021"
publish = false

[dependencies]
rand = "0.8"
chrono = { version = "0.4", default-features = false, features = ["std"] }
serialport = { version = "4", default-features = false }
getch = "*"
json = "0.12"
libc = "0.2"
rtmidi = "*"
reqwest = { version = "*", default-features = false, features = ["blocking"] }
rodio = { version = "*", default-features = false }
cpal = "*"
