[package]
name = "binident"
version = "0.1.0"
edition = "2021"
publish = false

[dependencies]
goblin = "=0.10.7"
home = "=0.5.12"
infer = "=0.22.0"
interprocess = "~2.2"
nu-plugin = "=0.110.0"
nu-protocol = "=0.110.0"
