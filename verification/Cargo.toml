[package]
name = "proxy_server"
version = "0.1.0"
edition = "2021"
publish = false

[dependencies]
anyhow = "=1.0.104"
clap = { version = "=4.6.7", features = ["derive"] }
kcp-tokio = "=0.7.0"
libc = "=0.2.191"
quinn = { version = "=0.11.12", default-features = false, features = ["log", "runtime-tokio", "rustls-ring"] }
rcgen = "=0.12.1"
rustls = { version = "=0.23.46", default-features = false, features = ["logging", "ring", "std", "tls12"] }
tempfile = "=3.27.0"
tokio = { version = "=1.54.1", features = ["full"] }
tracing = "=0.1.44"
tracing-subscriber = { version = "=0.3.23", features = ["env-filter"] }
winapi = { version = "=0.3.9", features = ["ws2def"] }
windows-sys = { version = "=0.59.0", features = ["Win32_Foundation", "Win32_Storage_FileSystem"] }

[dev-dependencies]
quinn-proto = { version = "=0.11.19", default-features = false, features = ["rustls-ring"] }
