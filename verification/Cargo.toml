[package]
name = "mvp"
version = "0.1.0"
edition = "2021"
publish = false

[dependencies]
nom = "4"
unicode-xid = "0.2"
