[package]
name = "crust"
version = "0.1.0"
edition = "2021"
publish = false

[dependencies]
futures = "0.1"
maidsafe_utilities = "*"
mio = "0.6"
rand = "*"
serde = { version = "1", features = ["derive"] }
socket_addr = "*"
tokio-core = "0.1"
