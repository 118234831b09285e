[package]
name = "tmux_control"
version = "0.1.0"
edition = "2021"
publish = false

[dependencies]
anyhow = "=1.0.104"
async-trait = "=0.1.92"
filedescriptor = "=0.8.3"
log = "=0.4.35"
parking_lot = "=0.12.5"
portable-pty = "=0.9.0"
termwiz = { version = "=0.23.3", default-features = false }
wezterm-dynamic = "=0.2.1"
