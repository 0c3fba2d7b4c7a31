[package]
name = "board_brain"
version = "0.1.0"
edition = "2021"
publish = false

[dependencies]
anyhow = "1"
candle-core = "*"
candle-nn = "*"
cliclack = "*"
rand = "0.8"
