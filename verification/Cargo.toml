[package]
name = "esp32s3_farmstick"
version = "0.1.0"
edition = "2021"
publish = false

[dependencies]
heapless = "=0.8.0"
log = "=0.4.35"
nb = "=1.1.0"
static_cell = "=2.1.1"
esp-hal = { version = "1", features = ["esp32s3", "unstable"] }
esp-rtos = { version = "*", features = ["esp32s3", "embassy"] }
esp-backtrace = { version = "*", features = ["esp32s3", "panic-handler", "println"] }
esp-bootloader-esp-idf = { version = "*", features = ["esp32s3"] }
esp-alloc = "*"
embassy-executor = "*"
embassy-time = "*"
embassy-usb = "*"
