[package]
name = "mpvpaper_rs_core"
version = "0.1.0"
edition = "2021"
publish = false

[dependencies]
anyhow = "1"
calloop = "0.14"
calloop-wayland-source = "0.4"
clap = { version = "4", features = ["derive"] }
colored = "*"
ctrlc = "3"
dashmap = "6"
dirs = "*"
gl = "0.14"
khronos-egl = { version = "6", features = ["dynamic"] }
libloading = "0.8"
libmpv2 = "*"
libmpv2-sys = "*"
nix = { version = "0.29", features = ["process", "signal", "fs"] }
shlex = "1"
signal-hook = "0.3"
smithay-client-toolkit = { version = "0.20", default-features = false }
thiserror = "*"
wayland-client = "0.31"
wayland-egl = "0.32"
