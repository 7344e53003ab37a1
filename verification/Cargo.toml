[package]
name = "cargo_verify"
version = "0.1.0"
edition = "2021"
publish = false

[dependencies]
rustc-demangle = "0.1"
cargo_metadata = "*"
log = "0.4"
num_cpus = "1"
rayon = "1"
shell-escape = "0.1"
stderrlog = "*"
structopt = "0.3"
