[package]
name = "cargo-dlx"
version = "0.4.0"
edition = "2021"
publish = false

[dependencies]
semver = "1"
url = "2"
clap = { version = "4", features = ["derive"] }
clap-cargo = "*"
cargo-subcommand-metadata = "*"
