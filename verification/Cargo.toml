[package]
name = "rmk"
version = "0.1.0"
edition = "2021"
publish = false

[dependencies]
strsim = "=0.11.1"
postcard = { version = "=1.1.3", default-features = false, features = ["alloc"] }
heapless = "=0.9.3"
trouble-host = { version = "=0.8.0", features = ["security"] }
serde = { version = "=1.0.229", features = ["derive"] }
embedded-graphics = "=0.8.2"
embassy-time = { version = "=0.5.1", features = ["std"] }
embassy-sync = "=0.8.0"
embassy-futures = "=0.1.2"
embedded-hal = "=1.0.0"
embedded-hal-async = "=1.0.0"
embedded-io-async = "=0.7.0"
embedded-storage-async = "=0.4.2"
embassy-boot = "=0.7.0"
embassy-embedded-hal = "=0.6.0"
proc-macro2 = "=1.0.107"
quote = "=1.0.47"
lcd-async = "=0.1.3"
usbd-hid = "=0.10.2"
bt-hci = "=0.10.1"
futures = "=0.3.34"
