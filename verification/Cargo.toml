[package]
name = "move_vm_core"
version = "0.1.0"
edition = "2021"
publish = false

[dependencies]
sha2 = "*"
sha3 = "*"
clap = { version = "*", features = ["derive"] }
codespan-reporting = "*"
