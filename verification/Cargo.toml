[package]
name = "ios_kernel"
version = "0.1.0"
edition = "2021"
publish = false

[dependencies]
noto-sans-mono-bitmap = "*"
pc-keyboard = "*"
crossbeam-queue = "*"
pci_types = "*"
