[package]
name = "yaml_mapping_item"
version = "0.1.0"
edition = "2021"
rust-version = "1.95"
publish = false

[dependencies]
oxc-yaml-parser = "=0.0.2"
