[package]
name = "lsock"
version = "0.1.0"
edition = "2021"

[dependencies]
json = "=0.12.4"
mlua = { version = "=0.12.2", features = ["lua54", "module"] }
