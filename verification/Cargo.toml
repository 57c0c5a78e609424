[package]
name = "tokio-interactive"
version = "0.1.0"
edition = "2021"
publish = false

[dependencies]
tokio = { version = "1", features = ["sync", "process", "io-util", "rt", "time"] }
anyhow = "1"
log = "0.4"
serde = { version = "1", features = ["derive"] }
libc = "0.2"
winapi = { version = "0.3", features = ["processthreadsapi", "handleapi", "wincon", "winnt"] }
