[package]
name = "awesome_bot"
version = "0.1.0"
edition = "2021"
publish = false

[dependencies]
regex = "*"
scoped_threadpool = "*"
rustc-serialize = "*"
telegram-bot = "0.4"
