[package]
name = "bootboot_loader"
version = "0.1.0"
edition = "2021"
publish = false

[dependencies]
log = "=0.4.34"
uefi = { version = "=0.41.0", default-features = false, features = ["alloc", "logger", "global_allocator"] }
