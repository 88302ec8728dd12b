[package]
name = "dropping_thread_local"
version = "0.1.0"
edition = "2021"
publish = false

[dependencies]
boxcar = "*"
foldhash = "*"
imbl = "*"
intid = "*"
intid-allocator = "*"
nonmax = "*"
parking_lot = "*"
portable-atomic = "*"
