[package]
name = "mine_clone"
version = "0.1.0"
edition = "2021"
publish = false

[dependencies]
anyhow = "1"
bytemuck = { version = "1", features = ["derive"] }
cgmath = "0.18"
env_logger = { version = "0.10", default-features = false }
image = { version = "0.24", default-features = false, features = ["png"] }
log = "0.4"
noise = { version = "0.8", default-features = false }
rand = "0.8"
rand_seeder = "0.2"
tokio = { version = "1", features = ["rt-multi-thread", "sync", "macros"] }
