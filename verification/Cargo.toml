[package]
name = "site_compiler"
version = "0.1.0"
edition = "2021"
publish = false

[dependencies]
anyhow = "1"
chrono = "0.4"
env_logger = "0.11"
kuchiki = "0.8"
lazy_static = "1"
log = "0.4"
notify = "6"
tera = "1"
