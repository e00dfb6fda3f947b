[package]
name = "mailbox"
version = "0.1.0"
edition = "2021"
publish = false

[dependencies]
heapless = "0.7"
postcard = { version = "1", features = ["alloc"] }
bbqueue = "0.5"
maitake-sync = "*"
serde = { version = "1", default-features = false, features = ["derive"] }
tracing = { version = "0.1", default-features = false }
bootloader_api = "*"
embedded-graphics = "*"
