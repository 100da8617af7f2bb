[package]
name = "bpf_object"
version = "0.1.0"
edition = "2021"
publish = false

[dependencies]
object = { version = "0.23", default-features = false, features = ["std", "read_core", "elf"] }
thiserror = "1"
