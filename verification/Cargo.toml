[package]
name = "vanity_commit"
version = "0.1.0"
edition = "2021"
publish = false

[dependencies]
sha1 = "*"
num_cpus = "*"
git2 = { version = "*", default-features = false }
