[package]
name = "factorio_bridge"
version = "0.1.0"
edition = "2021"
publish = false

[dependencies]
anyhow = "=1.0.104"
clap = { version = "=4.6.7", features = ["derive", "env"] }
dotenv = "=0.15.0"
dptree = "=0.5.1"
linemux = "=0.3.0"
rcon = { version = "=0.6.0", features = ["rt-tokio"] }
takecell = "=0.1.1"
teloxide = { version = "=0.17.0", default-features = false, features = ["rustls"] }
tokio = { version = "=1.53.2", features = ["macros", "rt", "sync", "signal", "time"] }
tracing = "=0.1.44"
tracing-subscriber = "=0.3.23"
