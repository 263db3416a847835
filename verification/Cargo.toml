[package]
name = "linkspace_pkt"
version = "0.1.0"
edition = "2021"
publish = false

[dependencies]
arrayvec = "*"
blake3 = { version = "*", features = ["pure"] }
thiserror = "*"
