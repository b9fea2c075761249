[package]
name = "rusty_shooter"
version = "0.1.0"
edition = "2021"
publish = false

[dependencies]
rg3d = "=0.22.0"
rg3d-core = "=0.17.1"
crossbeam = "=0.8.5"
