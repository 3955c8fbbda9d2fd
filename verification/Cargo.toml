[package]
name = "ghost_script"
version = "0.1.0"
edition = "2021"
publish = false

[dependencies]
ff = { version = "0.13", default-features = false }
pasta_curves = { version = "0.5", default-features = false }
sha2 = "0.10"
ripemd = "0.1"

[dev-dependencies]
rand = "0.8"
