[package]
name = "cricket_sim"
version = "0.1.0"
edition = "2021"
publish = false

[dependencies]
fnv = "1"
rand = "0.8"
serde = { version = "1", features = ["derive"] }
thiserror = "1"
prettytable-rs = "*"
