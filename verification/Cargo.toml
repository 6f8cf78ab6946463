[package]
name = "wayland_extras"
version = "0.1.0"
edition = "2021"
publish = false

[dependencies]
ahash = "0.8"
smithay-client-toolkit = { version = "0.19", default-features = false }
wayland-protocols = { version = "0.32", features = ["client", "staging", "unstable"] }
