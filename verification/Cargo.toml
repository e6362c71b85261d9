[package]
name = "krun_boot"
version = "0.1.0"
edition = "2021"
publish = false

[dependencies]
vm-memory = { version = "0.16", features = ["backend-mmap"] }
kvm-bindings = { version = "*", features = ["fam-wrappers"] }
kvm-ioctls = "*"
libc = "0.2"
vmm-sys-util = "*"
