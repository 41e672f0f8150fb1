[package]
name = "kyocode"
version = "0.1.0"
edition = "2021"
publish = false

[dependencies]
arrayvec = "*"
ring = "*"

[dev-dependencies]
quickcheck = "*"
