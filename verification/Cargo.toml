[package]
name = "motoko_vm"
version = "0.1.0"
edition = "2021"
publish = false

[dependencies]
im-rc = "15.1"
num-bigint = "0.4"
