[package]
name = "ringsig"
version = "0.1.0"
edition = "2021"
publish = false

[dependencies]
curve25519-dalek = "3"
merlin = "2"
blake2 = "0.9"
sha2 = "0.9"
rand = "0.7"
