[package]
name = "journaled_evm"
version = "0.1.0"
edition = "2021"
publish = false

[dependencies]
revm-primitives = "20.0.0"
revm-bytecode = "6.0.0"
revm-state = "7.0.0"
revm-context-interface = "8.0.0"
revm-database-interface = "7.0.0"
