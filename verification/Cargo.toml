[package]
name = "tasker_lib"
version = "0.1.0"
edition = "2021"
publish = false

[dependencies]
themis = "0.14"
chrono = "0.4"
random-string = "*"
rusqlite = { version = "*", features = ["bundled"] }
rayon = "1"
sysinfo = "0.29"
cryptex = "*"
notify-rust = "4"
readable-perms = "*"
simple-home-dir = "*"
sudo = "*"
clap = { version = "4", features = ["derive"] }
comfy-table = "*"
cron_list_parser = "*"
terminal-text-styler = "*"
