[package]
name = "dense_net"
version = "0.1.0"
edition = "2021"
publish = false

[dependencies]
byteorder = "=1.5.0"
kdam = "=0.6.4"
ndarray = "=0.16.1"
ndarray-rand = "=0.15.0"
rand = "=0.8.8"
rayon = "=1.12.0"
tracing = "=0.1.44"
tracing-flame = "=0.2.0"
tracing-subscriber = "=0.3.23"
