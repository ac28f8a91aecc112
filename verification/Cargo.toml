[package]
name = "xkbcompose"
version = "0.1.0"
edition = "2021"
publish = false

[dependencies]
xkeysym = "0.2"
xkbcommon-dl = "0.4"
smol_str = "0.2"
log = "0.4"
anyhow = "1"
bitflags = "2"
