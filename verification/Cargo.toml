[package]
name = "ntp_proto"
version = "0.1.0"
edition = "2021"
publish = false

[dependencies]
libc = "0.2"
exitcode = "1.1"
tracing = "0.1"
