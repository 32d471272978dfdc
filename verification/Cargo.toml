[package]
name = "xml_tree_builder"
version = "0.1.0"
edition = "2021"
publish = false

[dependencies]
string_cache = { version = "*", default-features = false }
tendril = "*"
