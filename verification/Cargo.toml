[package]
name = "uncpi"
version = "0.1.0"
edition = "2021"
publish = false

[dependencies]
anyhow = "*"
clap = { version = "*", features = ["derive"] }
num_cpus = "*"
proc-macro2 = "*"
quote = "*"
rayon = "*"
regex = "*"
serde = { version = "*", features = ["derive"] }
serde_json = "*"
sha2 = "*"
syn = { version = "*", features = ["full"] }
