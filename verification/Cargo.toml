[package]
name = "ip_preimage"
version = "0.1.0"
edition = "2021"
publish = false

[dependencies]
anyhow = "1"
hex = "0.4"
num_cpus = "1"
sha2 = "*"
tokio = { version = "1", features = ["macros", "rt-multi-thread", "time"] }
