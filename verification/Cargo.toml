[package]
name = "svm_escrow"
version = "0.1.0"
edition = "2021"
publish = false

[dependencies]
pinocchio = "0.8"
solana-program = "2.2"
thiserror = "1"
num-derive = "0.4"
num-traits = "0.2"
