[package]
name = "clap_wrapper_bundler"
version = "0.1.0"
edition = "2021"
publish = false

[dependencies]
anyhow = "1"
argh = "0.1"
clap-sys = "*"
libloading = "0.8"
reflink = "*"
yansi = "1"
