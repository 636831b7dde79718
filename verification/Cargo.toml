[package]
name = "slabbable"
version = "0.1.0"
edition = "2021"
publish = false

[dependencies]
slab = "*"
stable-vec = "*"
hashbrown = "*"
nohash-hasher = "*"
humansize = "*"
memory-stats = "*"
