[package]
name = "hstr"
version = "0.1.0"
edition = "2021"
publish = false

[dependencies]
clap = "3"
dirs = "4"
libc = "0.2"
promkit = "0.1"
