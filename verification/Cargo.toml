[package]
name = "kova"
version = "0.1.0"
edition = "2021"
publish = false

[dependencies]
libc = "*"
log = "*"
parking_lot = "*"
rustix = { version = "*", features = ["termios", "process", "fs"] }
rustix-openpty = "*"
vte = "*"
