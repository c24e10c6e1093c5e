[package]
name = "catt"
version = "0.1.0"
edition = "2021"
publish = false

[dependencies]
byteorder = "1"
rustc-serialize = "0.3"
toml = "0.2"
log = "0.4"
rumqtt = "*"
openzwave = "*"
