[package]
name = "corne_display"
version = "0.1.0"
edition = "2021"
publish = false

[dependencies]
embassy-time = "=0.5.1"
embedded-graphics = "=0.8.2"
heapless = "=0.8.0"
rmk = { version = "=0.9.0", default-features = false, features = ["display", "_ble"] }

[dev-dependencies]
embassy-time = { version = "=0.5.1", features = ["std"] }
