[package]
name = "ssr_server"
version = "0.1.0"
edition = "2021"
publish = false

[dependencies]
axum = "0.7"
axum-server = "0.7"
clap = { version = "4", features = ["derive"] }
futures = "0.3"
gloo = "0.10"
hyper = "1"
tokio = { version = "1", features = ["fs", "macros", "rt-multi-thread"] }
tower-http = { version = "0.5", features = ["fs"] }
yew = { version = "0.21", features = ["ssr"] }
yew-router = "0.18"
