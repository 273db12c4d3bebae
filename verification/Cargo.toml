[package]
name = "chess_core"
version = "0.1.0"
edition = "2021"
publish = false

[dependencies]
cortex-m = "=0.7.10"
cortex-m-rt = "=0.7.7"
embedded-graphics-core = "=0.4.1"
embedded-hal = "=1.0.0"
nb = "=1.1.0"
panic-halt = "1"
rtt-target = "=0.6.2"
stm32f4xx-hal = { version = "=0.23.0", features = ["stm32f407"] }
