[package]
name = "android_ext4"
version = "0.1.0"
edition = "2021"
publish = false

[dependencies]
nom = "7"
clap = { version = "4", features = ["derive"] }
indicatif = "0.17"
rayon = "1"
thiserror = "1"
