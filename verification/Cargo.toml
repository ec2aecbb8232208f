[package]
name = "aht20_driver"
version = "0.1.0"
edition = "2021"
publish = false

[dependencies]
crc-any = "*"
embedded-hal = "0.2"
