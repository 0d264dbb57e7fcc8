[package]
name = "breadx"
version = "0.1.0"
edition = "2021"
publish = false

[dependencies]
hashbrown = "0.9"
dashmap = "4"
concurrent-queue = "1"
tinyvec = { version = "1", features = ["alloc"] }
heck = "0.3"
log = "0.4"
cfg-if = "1"
delaunator = "0.2"
async-io = "1"
futures-lite = "1"
tokio = { version = "1", features = ["net"] }
tokio-util = { version = "0.6", features = ["compat"] }
