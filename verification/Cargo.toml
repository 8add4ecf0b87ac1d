[package]
name = "lessbad"
version = "0.1.0"
edition = "2021"
publish = false

[dependencies]
x86_64 = { version = "=0.14.13", default-features = false, features = ["instructions"] }
pc-keyboard = "=0.5.1"
bootloader = "=0.9.35"
linked_list_allocator = { version = "0.10", default-features = false, features = ["use_spin"] }
spin = "=0.5.2"
lazy_static = { version = "=1.5.1", features = ["spin_no_std"] }
pic8259 = "=0.10.4"
uart_16550 = "=0.2.19"
