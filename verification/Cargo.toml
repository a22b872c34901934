[package]
name = "omnishell"
version = "0.1.0"
edition = "2021"
publish = false

[dependencies]
glob = "=0.3.4"
serde = { version = "=1.0.229", features = ["derive"] }
serde_json = "=1.0.154"
shlex = "=1.3.0"
dirs = "=7.0.0"
toml = "=1.1.8"
clap = { version = "=4.6.7", features = ["derive"] }
thiserror = "=2.0.21"
tracing = "=0.1.44"
libc = "=0.2.191"
nix = { version = "=0.31.3", features = ["mount", "sched"] }
tokio = { version = "=1.54.1", features = ["rt-multi-thread"] }
regex = "=1.13.1"
lazy_static = "=1.5.1"
anyhow = "=1.0.104"
crossterm = "=0.29.0"
image = { version = "=0.25.10", default-features = false, features = ["png"] }
viuer = "=0.11.0"
gix = { version = "=0.90.0", default-features = false, features = ["status", "sha1"] }
shrs = "*"
shrs_lang = "*"
shrs_job = "*"

[dev-dependencies]
tempfile = "=3.27.0"
