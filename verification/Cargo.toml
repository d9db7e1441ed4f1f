[package]
name = "shimeji_engine"
version = "0.1.0"
edition = "2021"
publish = false

[dependencies]
itertools = "*"
winit = "0.30"
pixels = "*"
png = "*"
xml-rs = "*"
log = "*"
simple_logger = "*"
anyhow = "*"
tray-item = "*"
cfg-if = "*"
