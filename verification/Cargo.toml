[package]
name = "bob_bsp"
version = "0.1.0"
edition = "2021"
publish = false

[dependencies]
critical-section = { version = "=1.2.0", features = ["std"] }
embedded-hal = "1"
embedded-hal-bus = "*"
fugit = "=0.3.9"
rp2040-hal = "*"
