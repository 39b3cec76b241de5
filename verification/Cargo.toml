[package]
name = "rust_sudoku"
version = "0.1.0"
edition = "2021"
publish = false

[dependencies]
anyhow = "*"
bpaf = { version = "*", features = ["derive"] }
