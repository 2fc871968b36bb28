[package]
name = "bcd_clock"
version = "0.1.0"
edition = "2021"
publish = false

[dependencies]
heapless = "0.8"
embedded-graphics = "*"
embedded-graphics-framebuf = "*"
embedded-hal = "*"
embedded-hal-bus = "*"
embassy-sync = "*"
embassy-time = "*"
embassy-executor = "*"
embassy-net = { version = "*", features = ["dhcpv4", "dns", "tcp", "udp", "proto-ipv4"] }
static_cell = "*"
mipidsi = "*"
reqwless = "*"
sntpc = "*"
sntpc-net-embassy = "*"
sntpc-time-embassy = "*"
esp-hal = "*"
esp-radio = "*"
esp-rtos = "*"
esp-println = "*"
esp-backtrace = "*"
esp-alloc = "*"
esp-bootloader-esp-idf = "*"
