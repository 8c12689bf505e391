[package]
name = "gguf_qwen"
version = "0.1.0"
edition = "2021"
publish = false

[dependencies]
candle-core = "*"
candle-nn = "*"
either = "*"
parking_lot = "*"
