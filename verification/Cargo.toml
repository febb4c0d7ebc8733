[package]
name = "virpc"
version = "0.1.0"
edition = "2021"
publish = false

[dependencies]
minifb = "=0.29.0"
ncurses = { version = "=5.98.0", features = ["menu"] }
time = "=0.1.45"
