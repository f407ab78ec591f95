[package]
name = "fc-rusty"
version = "0.1.0"
edition = "2021"
publish = false

[dependencies]
cortex-m = "0.7"
critical-section = "1.2"
defmt = "1"
embassy-executor = { version = "0.9", default-features = false }
embassy-futures = "0.1"
embassy-stm32 = { version = "0.4", default-features = false, features = ["stm32h743vi", "time-driver-any", "unstable-pac"] }
embassy-sync = "0.7"
embassy-time = "0.5"
libm = "0.2"
nalgebra = { version = "0.33", default-features = false, features = ["libm"] }
