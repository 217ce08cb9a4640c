[package]
name = "why3_ptree"
version = "0.1.0"
edition = "2021"
publish = false

[dependencies]
bumpalo = "*"
internment = { version = "*", features = ["arc"] }
malachite = "*"
ocaml-format = "*"
serde = { version = "*", features = ["derive"] }
