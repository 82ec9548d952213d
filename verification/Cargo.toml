[package]
name = "vcf_merge"
version = "0.1.0"
edition = "2021"
publish = false

[dependencies]
vcf = "0.6"
flate2 = "1"
rayon = "1"
clap = { version = "3", features = ["derive"] }
bgzip = "0.2"
mimalloc = { version = "0.1", default-features = false }
