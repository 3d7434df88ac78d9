[package]
name = "plugin_packager"
version = "0.1.0"
edition = "2021"
publish = false

[dependencies]
clap = { version = "=4.6.7", features = ["derive"] }
clack-plugin = "0.2.0"
