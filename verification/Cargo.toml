[package]
name = "predikit"
version = "0.1.0"
edition = "2021"
publish = false

[dependencies]
clap = { version = "*", features = ["derive"] }
codespan-reporting = "*"
colored = "*"
duration-str = "*"
env_logger = "*"
handlebars = "*"
is_executable = "*"
log = "*"
port_scanner = "*"
shellexpand = "*"
url = "*"
which = "*"
