[package]
name = "univention_maintenance_mode"
version = "0.1.0"
edition = "2021"
publish = false

[dependencies]
gotham = "0.2"
hyper = "0.11"
mime = "0.3"
