[package]
name = "blackbox-log"
version = "0.1.0"
edition = "2021"
publish = false

[dependencies]
bpaf = { version = "=0.9.28", features = ["derive"] }
exitcode = "=1.1.2"
mimalloc = "=0.1.52"
rayon = "=1.12.0"
tracing = "=0.1.44"
tracing-subscriber = "=0.3.23"
