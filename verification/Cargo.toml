[package]
name = "quinn_proto"
version = "0.1.0"
edition = "2021"
publish = false

[dependencies]
bytes = "1"
rand = "0.8"
tinyvec = { version = "1", features = ["alloc"] }
rustc-hash = "2"
socket2 = "0.5"
libc = "0.2"
