[package]
name = "steroids"
version = "0.1.0"
edition = "2021"
publish = false

[dependencies]
nphysics3d = "=0.24.0"
