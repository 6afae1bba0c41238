[package]
name = "uart_core"
version = "0.1.0"
edition = "2021"
publish = false

[dependencies]
embedded-hal = "0.2"
nb = "0.1"
spin = "0.9"
uart8250 = "*"
