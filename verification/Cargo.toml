[package]
name = "etchr_core"
version = "0.1.0"
edition = "2021"
publish = false

[dependencies]
anyhow = "*"
clap = { version = "*", features = ["derive"] }
console = "*"
ctrlc = "*"
dialoguer = "*"
flate2 = "*"
indicatif = "*"
libc = "*"
nix = { version = "*", features = ["ioctl"] }
sha2 = "*"
sysinfo = "*"
tempfile = "*"
termios = "*"
xz2 = "*"
zstd = "*"
