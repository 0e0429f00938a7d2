[package]
name = "proxy_router"
version = "0.1.0"
edition = "2021"
publish = false

[dependencies]
async-trait = "*"
http = "*"
pingora-core = "*"
pingora-error = "*"
pingora-http = "*"
pingora-proxy = "*"
