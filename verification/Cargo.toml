[package]
name = "microblog"
version = "0.1.0"
edition = "2021"
publish = false

[dependencies]
chrono = "0.4"
clap = { version = "4", features = ["derive"] }
plurify = "*"
redb = "3"
rocket = "0.5"
rocket_dyn_templates = { version = "*", features = ["tera"] }
url = "2"
