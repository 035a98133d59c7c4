[package]
name = "armkernel"
version = "0.1.0"
edition = "2021"
publish = false

[dependencies]
linked_list_allocator = { version = "0.10", default-features = false }
spin = "0.9"
volatile = "0.2"
