[package]
name = "mm_x86_64"
version = "0.1.0"
edition = "2021"
publish = false

[dependencies]
x86 = "=0.52.0"
x86_64 = { version = "=0.15.5", default-features = false, features = ["instructions"] }

[dev-dependencies]
hashbrown = "=0.17.1"
