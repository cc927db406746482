[package]
name = "megamonic"
version = "0.1.0"
edition = "2021"
publish = false

[dependencies]
ahash = "=0.8.12"
btoi = "=0.5.0"
crossterm = "=0.29.0"
anyhow = "=1.0.104"
thiserror = "=2.0.21"
clap = "=4.6.7"
backtrace = "=0.3.77"
libc-strftime = "=0.2.0"
nvml-wrapper = "=0.7.0"
sensors = "*"
