[package]
name = "vcd_index"
version = "0.1.0"
edition = "2021"

[dependencies]
vcd = "*"
serde = { version = "*", features = ["derive"] }
