[package]
name = "deno_lint"
version = "0.1.0"
edition = "2021"
publish = false

[dependencies]
deno_ast = { version = "*", features = ["visit"] }
clap = "*"
