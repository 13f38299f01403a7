[package]
name = "haybale-pitchfork"
version = "0.4.0"
edition = "2021"
publish = false

[dependencies]
haybale = { version = "=0.7.2", features = ["llvm-14"] }
llvm-ir = { version = "=0.8.2", features = ["llvm-14"] }
# haybale and llvm-ir link LLVM 14 through llvm-sys; this line only selects
# linking it as a shared library.
llvm-sys = { version = "=140.1.3", features = ["force-dynamic"] }
boolector = "=0.4.3"
either = "=1.19.0"
log = "=0.4.35"
colored = "=2.2.0"
env_logger = "=0.9.3"
chrono = "=0.4.45"
crossterm = "=0.29.0"
