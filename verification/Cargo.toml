[package]
name = "conn_dispatch"
version = "0.1.0"
edition = "2021"
publish = false

[dependencies]
ctrlc = "=3.5.2"
dotenvy = "=0.15.7"
rustls = "=0.21.12"
rustls-pemfile = "=1.0.4"
tokio = { version = "=1.53.2", features = ["rt-multi-thread", "macros", "net", "sync", "io-util", "time"] }
tokio-rustls = "=0.24.1"
