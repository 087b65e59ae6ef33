[package]
name = "side_by_side"
version = "0.1.0"
edition = "2021"
publish = false

[dependencies]
owo-colors = "3"
yansi = "0.5"
