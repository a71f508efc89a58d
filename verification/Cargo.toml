[package]
name = "cortexm_scheduling"
version = "0.1.0"
edition = "2021"
publish = false

[dependencies]
cortex-m = "*"
cortex-m-rt = "*"
cortex-m-semihosting = "*"
panic-semihosting = "*"
nrf52832-pac = "*"
