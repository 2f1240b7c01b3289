[package]
name = "at-serial"
version = "0.1.0"
edition = "2021"
publish = false

[dependencies]
crossterm = "0.27"
log = "0.4"
serde = { version = "1", features = ["derive"] }
serialport = { version = "4", default-features = false }
thiserror = "1"
tokio = { version = "1", features = ["macros", "rt-multi-thread"] }
