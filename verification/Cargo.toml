[package]
name = "logon_watch"
version = "0.1.0"
edition = "2021"
publish = false

[dependencies]
chrono = "=0.4.45"
quick-xml = "=0.31.0"
tokio = { version = "=1.53.2", features = ["rt-multi-thread", "macros", "sync"] }
windows = { version = "=0.58.0", features = ["Win32_Foundation", "Win32_System_EventLog"] }
