[package]
name = "numfmt"
version = "0.1.0"
edition = "2021"
publish = false

[dependencies]
clap = "2"
exitcode = "1"

[dev-dependencies]
regex = "1"
