[package]
name = "bootloader"
version = "0.1.0"
edition = "2021"
publish = false

[dependencies]
crc32fast = "1"
anyhow = "1"

[dev-dependencies]
fatfs = "0.3"
