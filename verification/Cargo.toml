[package]
name = "vramdisk"
version = "0.1.0"
edition = "2021"
publish = false

[dependencies]
clap = { version = "*", features = ["derive"] }
ctrlc = "*"
libc = "*"
opencl3 = "*"
parse-size = "*"
sd-notify = "*"
vblk = "*"
