[package]
name = "pmcore"
version = "0.1.0"
edition = "2021"
publish = false

[dependencies]
bytemuck = "=1.25.2"
libm = "=0.2.16"
cortex-m = "0.7"
defmt = "1"
embassy-executor = "0.9"
embassy-stm32 = { version = "0.6", features = ["stm32f411ce", "time-driver-any", "exti"] }
embassy-sync = "*"
embassy-time = "*"
embedded-hal-bus = { version = "*", features = ["async"] }
static_cell = "2"
