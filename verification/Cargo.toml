[package]
name = "vintage_kvm"
version = "0.1.0"
edition = "2021"
publish = false

[dependencies]
heapless = "0.8"
pio = "0.3"
defmt = "1"
defmt-rtt = "1"
embassy-executor = "*"
embassy-futures = "*"
embassy-rp = { version = "*", features = ["rp235xa", "unstable-pac", "time-driver", "critical-section-impl"] }
embassy-sync = "*"
embassy-time = "*"
fixed = "1"
panic-probe = "*"
serde = { version = "1", default-features = false, features = ["derive"] }
smart-leds = "*"
