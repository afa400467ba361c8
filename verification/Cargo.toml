[package]
name = "bytecode_backend"
version = "0.1.0"
edition = "2021"
publish = false

[dependencies]
cranelift-codegen = { version = "=0.130.2", default-features = false, features = ["std", "unwind", "arm64"] }
cranelift-frontend = "=0.130.2"
cranelift-module = "=0.130.2"
cranelift-object = "=0.130.2"
target-lexicon = "=0.13.5"
