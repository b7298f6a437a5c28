[package]
name = "psu_controller"
version = "0.1.0"
edition = "2021"
publish = false

[dependencies]
arrayvec = { version = "=0.7.8", default-features = false }
itoa = "=1.0.18"
cortex-m = "=0.5.11"
cortex-m-rt = "=0.5.7"
cortex-m-rtfm = "=0.3.4"
cortex-m-semihosting = "=0.3.7"
embedded-hal = { version = "=0.2.7", features = ["unproven"] }
hd44780-driver = "=0.2.1"
nb = "=0.1.3"
panic-semihosting = "0.5"
stm32f103xx = { version = "=0.10.0", features = ["rt"] }
