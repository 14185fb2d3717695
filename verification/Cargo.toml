[package]
name = "slurm_profile"
version = "0.1.0"
edition = "2021"
publish = false

[dependencies]
anyhow = "1"
clap = { version = "3", features = ["derive"] }
directories-next = "2"
log = "0.4"
log4rs = "1"
serde = { version = "1", features = ["derive"] }
toml = "0.5"
