[package]
name = "haybale"
version = "0.1.0"
edition = "2021"
publish = false

[dependencies]
z3 = "=0.10.0"
llvm-ir = { version = "=0.11.3", features = ["llvm-14", "prefer-dynamic"] }
