[package]
name = "spark_ble"
version = "0.1.0"
edition = "2021"
publish = false

[dependencies]
zerocopy = "=0.8.63"
arrayvec = { version = "=0.7.8", default-features = false }
bt-hci = "0.3.2"
defmt = "1.0"
embassy-executor = "0.7.0"
embassy-futures = "0.1.2"
embassy-sync = "0.6.2"
embassy-time = "0.4.0"
embedded-graphics = "0.8.2"
embedded-hal = "1.0.0"
embedded-hal-bus = "0.3.0"
esp-alloc = "0.8.0"
esp-backtrace = { version = "0.16.0", features = ["esp32"] }
esp-hal = { version = "=1.0.0-beta.1", features = ["esp32", "unstable"] }
esp-hal-embassy = { version = "0.8.1", features = ["esp32"] }
esp-println = { version = "0.14.0", features = ["esp32"] }
esp-wifi = { version = "0.14.1", features = ["esp32", "ble"] }
mipidsi = "0.9.0"
profont = "0.7.0"
trouble-host = { version = "0.2.4", features = ["scan"] }
