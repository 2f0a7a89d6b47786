[package]
name = "rwkv_hip"
version = "0.1.0"
edition = "2021"
publish = false

[dependencies]
bytemuck = "1"
half = "2"
log = "0.4"
safetensors = "*"
