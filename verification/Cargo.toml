[package]
name = "osoy"
version = "0.4.0"
edition = "2021"
publish = false

[dependencies]
dirs = "3"
git2 = { version = "0.13", default-features = false }
lazy_static = "1"
regex = "1"
structopt = "0.3"
termion = "1"
