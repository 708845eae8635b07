[package]
name = "onchange"
version = "0.1.0"
edition = "2021"
publish = false

[dependencies]
pathdiff = "*"
glob = "*"
new_string_template = "*"
clap = { version = "*", features = ["derive"] }
colored = "*"
config = "*"
humantime = "*"
notify-debouncer-mini = "*"
subprocess = "*"
