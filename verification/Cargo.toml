[package]
name = "module_cache"
version = "0.1.0"
edition = "2021"
publish = false

[dependencies]
clru = "=0.6.3"
wasmer = { version = "=7.3.0", default-features = false, features = ["sys", "singlepass"] }

[dev-dependencies]
sha2 = "=0.10.9"
wat = "=1.262.0"
