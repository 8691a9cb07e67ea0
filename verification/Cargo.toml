[package]
name = "sddf_net_queue"
version = "0.1.0"
edition = "2021"
publish = false

[dependencies]
virtio-drivers = "0.7"
zerocopy = { version = "0.7", features = ["derive"] }
