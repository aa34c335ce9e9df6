[package]
name = "aionui-ai-agent"
version = "0.1.0"
edition = "2021"
publish = false

[dependencies]
agent-client-protocol = { version = "=0.11.1", features = ["unstable"] }
dashmap = "=6.2.1"
futures-util = "=0.3.34"
hex = "=0.4.3"
libc = "=0.2.191"
regex = "=1.13.1"
serde = { version = "=1.0.229", features = ["derive"] }
serde_json = "=1.0.154"
sha2 = "=0.10.9"
tokio = { version = "=1.54.1", features = ["sync", "rt", "rt-multi-thread", "macros", "time", "io-util", "process", "fs"] }
tokio-util = { version = "=0.7.20", features = ["compat"] }
tracing = "=0.1.44"
windows-sys = { version = "0.59", features = ["Win32_Foundation", "Win32_Storage_FileSystem", "Win32_System_Threading"] }
uuid = { version = "=1.29.0", features = ["v4"] }

[dev-dependencies]
tempfile = "=3.27.0"
