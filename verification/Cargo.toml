[package]
name = "flutterby"
version = "0.1.0"
edition = "2021"
publish = false

[dependencies]
arrayvec = "=0.4.12"
bare-metal = "0.2"
bitflags = "=1.3.2"
futures = "=0.1.31"
volatile-register = "=0.2.2"
