[package]
name = "alarm_daemon"
version = "0.1.0"
edition = "2021"
publish = false

[dependencies]
cpal = "0.15"
redb = "2"
sd-notify = "*"
symphonia = { version = "0.5", default-features = false, features = ["wav", "flac", "pcm"] }
thiserror = "2"
tokio = { version = "1", features = ["rt-multi-thread", "macros", "signal", "sync", "time"] }
tracing = "0.1"
tracing-journald = "0.3"
tracing-subscriber = { version = "0.3", features = ["env-filter", "fmt"] }
zbus = { version = "5", default-features = false, features = ["tokio"] }
