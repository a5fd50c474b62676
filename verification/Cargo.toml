[package]
name = "gluon_ipc"
version = "0.1.0"
edition = "2021"
publish = false

[dependencies]
strong-ipc = "*"
bitflags = "2"
rustix = { version = "*", features = ["process", "net"] }
thiserror = "2"
tokio = { version = "1", features = ["sync", "macros", "rt"] }
