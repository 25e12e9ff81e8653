[package]
name = "cw-starter"
version = "0.1.0"
edition = "2021"
publish = false

[dependencies]
cosmwasm-std = "1.5"
cw2 = "1"
cw-storage-plus = "1"
thiserror = "1"
serde = { version = "1", features = ["derive"] }
