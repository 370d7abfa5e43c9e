[package]
name = "revng_fugue"
version = "0.1.0"
edition = "2021"
publish = false

[dependencies]
clap = "=4.6.7"
inkwell = { version = "=0.9.0", features = ["llvm18-1-no-llvm-linking", "no-libffi-linking"] }
llvm-sys = { version = "=181.3.1", features = ["disable-alltargets-init"] }
rustc-hash = "=2.1.3"
thiserror = "=2.0.21"
