[package]
name = "robotssh"
version = "0.1.0"
edition = "2021"
publish = false

[dependencies]
clap = { version = "4.5", features = ["derive", "env"] }
clap_complete = "4.5"
color-eyre = "0.6"
humantime = "2"
mio = { version = "1", features = ["os-poll", "net"] }
rand = "0.9"
shared_child = "1"
