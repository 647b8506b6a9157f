[package]
name = "gate_os"
version = "0.1.0"
edition = "2021"
publish = false

[dependencies]
bit_field = "=0.10.3"
crossbeam-queue = "=0.3.14"
noto-sans-mono-bitmap = { version = "=0.3.2", features = ["unicode-specials"] }
object = { version = "=0.40.0", default-features = false, features = ["read_core", "elf"] }
pc-keyboard = "=0.9.0"
vte = "=0.15.0"
x86_64 = { version = "=0.15.5", default-features = false, features = ["instructions"] }
log = "=0.4.34"
futures-util = "=0.3.34"
linked_list_allocator = "=0.10.6"
x2apic = "=0.5.1"
pic8259 = "=0.11.0"
spinning_top = "=0.3.0"
conquer-once = "=0.4.0"
bootloader_api = "=0.11.17"
acpi = "=4.1.1"
raw-cpuid = "=10.7.0"
