[package]
name = "dashboard"
version = "0.1.0"
edition = "2021"
publish = false

[dependencies]
chrono = { version = "0.4", default-features = false }
chrono-tz = { version = "0.10", default-features = false }
heapless = "0.8"
critical-section = { version = "1", features = ["std"] }
defmt = "1"
log = "0.4"
embedded-graphics = "0.8"
embedded-hal = "1"
embedded-hal-bus = "0.3"
embedded-text = "0.7"
profont = "0.7"
minipng = "*"
mipidsi = "*"
smart-leds-trait = "*"
embassy-time = "*"
embassy-net = { version = "*", features = ["tcp", "udp", "dns", "dhcpv4", "proto-ipv4", "medium-ethernet"] }
embassy-executor = "*"
esp-hal = "*"
esp-hal-smartled = "*"
esp-radio = "*"
esp-rtos = "*"
esp-alloc = "*"
esp-backtrace = "*"
esp-println = "*"
esp-bootloader-esp-idf = "*"
