[package]
name = "reify_reflect"
version = "0.1.0"
edition = "2021"
publish = false

[dependencies]
frunk = "=0.4.4"
typenum = "=1.20.1"
serde = { version = "=1.0.229", features = ["derive"] }
syn = "=2.0.119"
