[package]
name = "noah"
version = "0.1.0"
edition = "2021"
publish = false

[dependencies]
regex = "=1.13.1"
shlex = "=1.3.0"
serde_json = "=1.0.154"
subprocess = "=1.2.3"
bpaf = "=0.9.28"
clap = "=4.6.7"
which = "=8.0.6"
serde = { version = "=1.0.229", features = ["derive"] }
humantime = "=2.4.0"
textwrap = { version = "=0.16.4", features = ["terminal_size"] }
elasticsearch-dsl = "=0.4.26"
yansi = "=1.0.1"
inquire = "=0.9.4"
tempfile = "=3.27.0"
walkdir = "=2.5.0"
hostname = "=0.4.2"
rustix = { version = "=1.1.6", features = ["process"] }
jiff = "=0.2.39"
supports-hyperlinks = "=3.2.0"
nix = { version = "*", features = ["user", "fs"] }
