[package]
name = "midiplot"
version = "0.1.0"
edition = "2021"
publish = false

[dependencies]
serialport = "3"
coremidi = "*"
