[package]
name = "onshape_level_gen"
version = "0.1.0"
edition = "2021"
publish = false

[dependencies]
rand = "0.8"
creak = "*"
spectrum-analyzer = "*"
anyhow = "*"
