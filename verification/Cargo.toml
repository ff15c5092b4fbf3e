[package]
name = "ropr"
version = "0.1.0"
edition = "2021"
publish = false

[dependencies]
iced-x86 = "*"
goblin = "*"
disc-v = "*"
