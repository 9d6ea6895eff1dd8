[package]
name = "type_gen"
version = "0.1.0"
edition = "2021"
publish = false

[dependencies]
marksman_escape = "=0.1.2"
