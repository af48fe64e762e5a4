[package]
name = "git_workspace"
version = "0.1.0"
edition = "2021"
publish = false

[dependencies]
log = "0.4"
serde = { version = "1", features = ["derive"] }
simple_logger = "1"
structopt = "0.3"
toml = "0.5"
url = "2"
