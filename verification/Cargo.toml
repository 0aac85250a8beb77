[package]
name = "xeneon_core"
version = "0.1.0"
edition = "2021"
publish = false

[dependencies]
serde = { version = "=1.0.229", features = ["derive"] }
serde_json = "=1.0.154"
flate2 = "=1.1.10"
tar = "=0.4.46"
libc = "=0.2.191"
chrono = "=0.4.45"
chrono-tz = "*"
rrule = "*"
ureq = "3"
