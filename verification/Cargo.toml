[package]
name = "ross_configurator"
version = "0.1.0"
edition = "2021"
publish = false

[dependencies]
parse_int = "0.6.0"
clap = "2.34.0"
serialport = { version = "4", default-features = false }
