[package]
name = "magia_baiser"
version = "0.1.0"
edition = "2021"
publish = false

[dependencies]
anyhow = "=1.0.104"
async-ssh2-tokio = "=0.13.0"
async-trait = "=0.1.92"
clap = { version = "=4.6.7", features = ["derive"] }
futures-util = "=0.3.34"
rand = "=0.10.3"
russh = "=0.64.0"
sqlx = { version = "=0.9.0", default-features = false, features = ["sqlite", "runtime-tokio"] }
tabwriter = "=1.4.1"
tokio = { version = "=1.53.2", features = ["rt", "rt-multi-thread", "macros", "net", "time", "io-util"] }
tracing = "=0.1.44"
tracing-subscriber = { version = "=0.3.23", default-features = false, features = ["fmt", "registry", "ansi", "smallvec", "std"] }
