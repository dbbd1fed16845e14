[package]
name = "pdfium_cli"
version = "0.1.0"
edition = "2021"
publish = false

[dependencies]
anyhow = "1"
clap = { version = "3", features = ["derive"] }
image = { version = "0.23", default-features = false, features = ["png", "jpeg"] }
libc = "0.2"
serde = { version = "1", features = ["derive"] }
serde_json = "1"
utf16string = "0.2"
