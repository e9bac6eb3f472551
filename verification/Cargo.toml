[package]
name = "ifm"
version = "0.1.0"
edition = "2021"
publish = false

[dependencies]
clap = { version = "4", features = ["derive"] }
cocoa = "0.25"
colored = "2"
glob = "0.3"
notify = "6"
objc = "0.2"
rdev = { version = "0.5", features = ["unstable_grab"] }
tfc = "0.6"
