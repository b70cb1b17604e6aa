[package]
name = "kv"
version = "0.1.0"
edition = "2021"
publish = false

[dependencies]
raft = "=0.4.3"
protobuf = "=2.28.0"
futures = "=0.1.31"
grpcio = "=0.4.7"
clap = "=2.34.0"
rand = "=0.6.5"
