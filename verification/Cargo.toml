[package]
name = "invoker"
version = "0.1.0"
edition = "2021"
publish = false

[dependencies]
rustyline = "9"
libffi = "3"
proc-macro2 = "1"
quote = "1"
