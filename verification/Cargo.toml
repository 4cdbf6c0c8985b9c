[package]
name = "gpumem"
version = "0.1.0"
edition = "2021"
publish = false

[dependencies]
roxmltree = "0.20"
syn = "2"
quote = "1"
proc-macro2 = "1"
pest_generator = "2"
