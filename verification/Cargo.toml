[package]
name = "pinocchio_sample"
version = "0.1.0"
edition = "2021"
publish = false

[dependencies]
pinocchio = "=0.6.0"
bytemuck = { version = "=1.25.2", features = ["derive"] }
num-derive = "=0.5.1"
num-traits = "=0.2.19"
