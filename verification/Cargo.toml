[package]
name = "blog_os"
version = "0.1.0"
edition = "2021"
publish = false

[dependencies]
bootloader = { version = "=0.9.35", features = ["map_physical_memory"] }
lazy_static = { version = "=1.5.1", features = ["spin_no_std"] }
pc-keyboard = "=0.9.0"
pic8259 = "=0.10.4"
spin = "=0.5.2"
x86_64 = { version = "=0.14.13", default-features = false, features = ["instructions"] }
