[package]
name = "jvm_select"
version = "0.1.0"
edition = "2021"
publish = false

[dependencies]
plist = "*"
serde = { version = "*", features = ["derive"] }
tabled = "*"
