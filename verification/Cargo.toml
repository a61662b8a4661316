[package]
name = "asmfs"
version = "0.1.0"
edition = "2021"
publish = false

[dependencies]
chrono = "=0.4.45"
clap = "=4.6.7"
env_logger = "=0.11.11"
fuser = { version = "=0.15.1", default-features = false }
libc = "=0.2.190"
log = "=0.4.34"
oracle = "=0.6.3"
rlimit = "=0.10.2"
