[package]
name = "azpos_kernel"
version = "0.1.0"
edition = "2021"
publish = false

[dependencies]
x86_64 = { version = "=0.15.5", default-features = false, features = ["instructions"] }
bitvec = { version = "=1.1.1", default-features = false, features = ["alloc"] }
elf = { version = "=0.7.4", default-features = false }
spin = "=0.9.9"
lazy_static = "=1.5.1"
pic8259 = "=0.11.0"
uart_16550 = "=0.3.2"
bootloader_api = "=0.11.17"
simple-pcf = "=0.1.1"
modular-bitfield = "=0.11.2"
