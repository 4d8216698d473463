[package]
name = "roxy"
version = "0.1.0"
edition = "2021"
publish = false

[dependencies]
clap = { version = "=4.6.7", features = ["derive"] }
glob = "=0.3.4"
highlight-pulldown = "=0.2.2"
pulldown-cmark = "=0.9.6"
serde = { version = "=1.0.229", features = ["derive"] }
tera = "=1.20.1"
