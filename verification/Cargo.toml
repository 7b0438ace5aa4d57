[package]
name = "ifconfig_rs"
version = "0.1.0"
edition = "2021"
publish = false

[dependencies]
actix-files = "0.6"
actix-http = "3"
actix-web = { version = "4", default-features = false, features = ["macros"] }
buildid = "*"
clap = { version = "4", features = ["derive"] }
hex = "0.4"
maud = "*"
serde_json = { version = "1", features = ["preserve_order"] }
