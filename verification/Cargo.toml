[package]
name = "circuitsim"
version = "0.1.0"
edition = "2021"
publish = false

[dependencies]
ndarray = "0.15"
pest = "2"
pest_derive = "2"
