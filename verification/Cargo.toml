[package]
name = "mmr_peaks"
version = "0.1.0"
edition = "2021"
publish = false

[dependencies]
ckb-hash = "*"
blake2b-ref = "*"
