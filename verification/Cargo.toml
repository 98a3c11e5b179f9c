[package]
name = "kernel"
version = "0.1.0"
edition = "2021"
publish = false

[dependencies]
log = "0.4"
unwinding = { version = "0.2", default-features = false, features = ["unwinder", "fde-registry", "panic", "personality"] }
