[package]
name = "shadow_rs"
version = "0.1.0"
edition = "2021"
publish = false

[dependencies]
git2 = { version = "*", default-features = false }
const_format = "*"
