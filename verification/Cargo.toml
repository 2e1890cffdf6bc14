[package]
name = "random_rails_generator"
version = "0.1.0"
edition = "2021"
publish = false

[dependencies]
anyhow = "*"
convert_case = "*"
faker_rand = "*"
rand = "0.8"
reqwest = { version = "*", default-features = false, features = ["blocking"] }
