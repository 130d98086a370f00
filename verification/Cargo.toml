[package]
name = "bookkeeping"
version = "0.1.0"
edition = "2021"
publish = false

[dependencies]
serde = { version = "*", features = ["derive"] }
serde_yaml = "*"
rust_decimal = "*"
time = { version = "*", features = ["serde-human-readable"] }
cursive = "*"
cursive_table_view = "*"
cursive_tree_view = "*"
