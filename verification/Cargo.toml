[package]
name = "qqmusic_lan_sync"
version = "0.1.0"
edition = "2021"
publish = false

[dependencies]
regex = "1"
url = "2"
html-escape = "0.2"
lyrics-crypto = "*"
serde = { version = "1", features = ["derive"] }
serde_json = "1"
strsim = "0.11"
tokio = { version = "1", features = ["rt-multi-thread", "macros", "net", "time", "sync"] }
tokio-util = "0.7"
tokio-tungstenite = "*"
futures-util = "0.3"
axum = { version = "0.8", features = ["ws"] }
reqwest = { version = "0.12", default-features = false, features = ["json", "rustls-tls"] }
rusqlite = { version = "*", features = ["bundled"] }
uuid = { version = "1", features = ["v4"] }
hostname = "*"
local-ip-address = "*"
if-addrs = "*"
log = "0.4"
