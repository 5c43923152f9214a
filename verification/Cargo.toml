[package]
name = "evtcall"
version = "0.1.6"
edition = "2021"
publish = false

[dependencies]
libc = "0.2"
