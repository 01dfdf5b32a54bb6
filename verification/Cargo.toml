[package]
name = "coil_winder"
version = "0.1.0"
edition = "2021"
publish = false

[dependencies]
avr-device = { version = "=0.7.0", features = ["atmega328p"] }
embedded-hal = "=1.0.0"
panic-halt = "=1.0.0"
ufmt = "=0.2.0"
