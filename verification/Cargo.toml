[package]
name = "og_loc"
version = "0.1.0"
edition = "2021"
publish = false

[dependencies]
anyhow = "=1.0.104"
clap = { version = "=4.6.7", default-features = false, features = ["std", "derive", "env", "help", "usage", "error-context"] }
db-dump = "=0.9.0"
dotenvy = "=0.15.7"
minijinja = "=2.24.0"
serde = { version = "=1.0.229", features = ["derive"] }
thiserror = "=2.0.21"
tokio = { version = "=1.53.2", features = ["rt-multi-thread", "macros", "fs", "io-util", "io-std", "time", "sync", "net"] }
typst = "=0.14.2"
typst-kit = { version = "=0.14.2", default-features = false, features = ["fonts"] }
typst-render = "=0.14.2"
