[package]
name = "issues_helper"
version = "0.1.0"
edition = "2021"
publish = false

[dependencies]
git2 = "*"
gitlab = "*"
hyper = { version = "0.14", features = ["client", "http1", "tcp"] }
hyper-tls = "0.5"
open = "*"
rprompt = "*"
serde = { version = "1", features = ["derive"] }
serde_json = "1"
structopt = "*"
tokio = { version = "1", features = ["rt-multi-thread"] }
toml = "*"
url = "=1.7.2"
xdg = "*"
