[package]
name = "stellarfiles"
version = "0.1.0"
edition = "2021"
publish = false

[dependencies]
regex = "=1.13.1"
fuzzy-matcher = "=0.3.7"
mime_guess = "=2.0.5"
clap = { version = "=4.6.7", features = ["derive"] }
anyhow = "=1.0.104"
thiserror = "=2.0.21"
walkdir = "=2.5.0"
zip = { version = "=9.2.2", default-features = false, features = ["deflate"] }
tar = "=0.4.46"
flate2 = "=1.1.10"
zstd = { version = "=0.14.3", features = ["zstdmt"] }
bzip3 = "=0.13.1"
async-channel = "=2.5.0"
tokio = { version = "=1.54.1", features = ["rt", "rt-multi-thread", "process", "time", "io-util", "macros"] }
nix = { version = "=0.31.3", features = ["fs", "zerocopy"] }
libc = "=0.2.191"
rand = "=0.10.3"
trash = "=5.2.9"
dirs = "=7.0.0"
notify = "=8.2.1"
sysinfo = "=0.40.1"
chrono = "=0.4.45"
rayon = "=1.12.0"
open = "=5.4.5"
lru = "*"
md-5 = "=0.10.6"
image = { version = "=0.25.10", default-features = false, features = ["png", "jpeg"] }
