[package]
name = "deeplearning"
version = "0.1.0"
edition = "2021"
publish = false

[dependencies]
bincode = "0.6"
byteorder = "1"
log = "0.4"
rand = "0.4"
rustc-serialize = "0.3"
scoped_threadpool = "0.1"
