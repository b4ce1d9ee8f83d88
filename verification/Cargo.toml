[package]
name = "esdetect"
version = "0.1.0"
edition = "2021"
publish = false

[dependencies]
anyhow = "*"
preset_env_base = "*"
sourcemap = "*"
swc_common = "*"
swc_ecma_ast = "*"
swc_ecma_parser = "*"
swc_ecma_preset_env = "*"
swc_ecma_visit = "*"
