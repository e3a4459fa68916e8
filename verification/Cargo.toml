[package]
name = "verify-mldsa-host"
version = "0.1.0"
edition = "2021"
publish = false

[dependencies]
bincode = "1"
fips204 = "*"
hex = "0.4"
sha2 = "0.10"
sp1-zkvm = "*"
