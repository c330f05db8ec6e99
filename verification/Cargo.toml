[package]
name = "tree_sitter_facade"
version = "0.1.0"
edition = "2021"
publish = false

[dependencies]
pico-args = "*"
