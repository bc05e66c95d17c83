[package]
name = "irox_sirf"
version = "0.1.0"
edition = "2021"
publish = false

[dependencies]
clap = { version = "=4.6.7", features = ["derive"] }
egui = { version = "=0.23.0", default-features = false }
irox-bits = { version = "=0.5.0", features = ["std"] }
irox-csv = "=0.5.1"
irox-enums = "=0.2.2"
irox-networking = "=0.4.7"
irox-tools = { version = "=0.11.1", features = ["std"] }
irox-units = { version = "=0.5.0", features = ["std"] }
log = "=0.4.34"
ureq = { version = "=2.12.1", default-features = false }
url = "=2.5.8"
