[package]
name = "rover_low_level_controller"
version = "0.1.0"
edition = "2021"
publish = false

[dependencies]
avr-device = { version = "0.7", features = ["atmega2560", "rt"] }
libm = "0.2"
nb = "1"
panic-halt = "0.2"
