[package]
name = "disco-quick"
version = "0.1.0"
edition = "2021"
publish = false

[dependencies]
quick-xml = "0.37"
flate2 = "1"
thiserror = "1"
log = "0.4"
serde = { version = "1", features = ["derive"] }
