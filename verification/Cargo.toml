[package]
name = "firefly-main"
version = "0.1.0"
edition = "2021"
publish = false

[dependencies]
embedded-graphics = "0.8"
embedded-hal-bus = "*"
embedded-storage = "*"
esp-alloc = "*"
esp-backtrace = "*"
esp-bootloader-esp-idf = "*"
esp-hal = "*"
esp-println = "*"
esp-storage = "*"
firefly-hal = "*"
firefly-runtime = "*"
firefly-types = "*"
