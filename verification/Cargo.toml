[package]
name = "lll"
version = "0.1.0"
edition = "2021"
publish = false

[dependencies]
fs_extra = "=1.3.0"
ncurses = { version = "=6.0.1", features = ["panel", "wide"] }
open = "=5.4.5"
rustyline = "=19.0.0"
