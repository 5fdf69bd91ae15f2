[package]
name = "monad"
version = "0.1.0"
edition = "2021"
publish = false

[dependencies]
bit_field = "=0.10.3"
x86 = "=0.52.0"
log = "=0.4.35"
clap = { version = "=4.6.7", features = ["derive"] }
serde_json = "=1.0.154"
wdk-sys = "=0.5.2"
windows-sys = { version = "=0.61.2", features = ["Wdk_System_SystemServices"] }
