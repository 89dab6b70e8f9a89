[package]
name = "my_rpn_calc"
version = "0.1.0"
edition = "2021"
publish = false

[dependencies]
ufmt = { version = "=0.2.0", features = ["std"] }
embedded-hal = { version = "=0.2.7", features = ["unproven"] }
