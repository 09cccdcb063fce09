[package]
name = "rusty_fractals"
version = "0.1.0"
edition = "2021"
publish = false

[dependencies]
rayon = "1"
chrono = { version = "0.4", default-features = false, features = ["clock", "std"] }
colors-transform = "0.2"
num = "0.4"
log = "0.4"
env_logger = "0.10"
error-iter = "0.4"
image = { version = "0.24", default-features = false, features = ["png"] }
