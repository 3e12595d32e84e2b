[package]
name = "yk"
version = "0.1.0"
edition = "2021"
publish = false

[dependencies]
dynasmrt = "=5.1.0"
hex = "=0.4.3"
iced-x86 = { version = "=1.21.0", default-features = false, features = ["std", "decoder", "instr_info"] }
intervaltree = "=0.2.7"
lazy_static = "=1.5.1"
libc = "=0.2.191"
num_cpus = "=1.17.0"
parking_lot = "=0.12.5"
parking_lot_core = "=0.9.12"
serde = { version = "=1.0.229", features = ["derive"] }
thiserror = "=1.0.69"
