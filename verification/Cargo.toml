[package]
name = "ir_backend"
version = "0.1.0"
edition = "2021"
publish = false

[dependencies]
typed-arena = "=2.0.2"
once_cell = "=1.21.4"
thiserror = "=1.0.69"
clap = { version = "=3.2.25", features = ["derive"] }
uname = "=0.1.1"
