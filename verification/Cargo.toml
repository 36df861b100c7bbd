[package]
name = "revolute"
version = "0.1.0"
edition = "2021"
publish = false

[dependencies]
embassy-time = { version = "=0.3.2", features = ["std"] }
embassy-sync = "=0.5.0"
heapless = "=0.8.0"
embassy-rp = "=0.1.0"
embassy-executor = { version = "=0.5.1", features = ["arch-std", "executor-thread", "integrated-timers"] }
embassy-net = { version = "=0.4.0", features = ["tcp", "dhcpv4", "medium-ethernet", "proto-ipv4"] }
embassy-net-wiznet = "=0.1.0"
embassy-usb-logger = "=0.1.0"
embedded-io-async = "=0.6.1"
cyw43 = "=0.1.0"
cyw43-pio = "=0.1.0"
defmt = "=0.3.101"
defmt-rtt = "=0.4.2"
panic-probe = "=0.3.2"
static_cell = "=2.1.1"
log = "=0.4.34"
