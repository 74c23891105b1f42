[package]
name = "add_classname"
version = "0.1.0"
edition = "2021"
publish = false

[dependencies]
swc_core = { version = "*", default-features = false, features = ["common", "ecma_ast", "ecma_visit"] }
