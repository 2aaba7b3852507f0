[package]
name = "balabol"
version = "0.1.0"
edition = "2021"
publish = false

[dependencies]
hex = "=0.4.3"
ed25519-dalek = "=2.2.0"
chacha20poly1305 = "=0.10.1"
rand = "=0.8.8"
base64 = "=0.22.1"
sha2 = "=0.10.9"
secp256k1 = { version = "=0.33.1", features = ["rand", "global-context"] }
serde = { version = "=1.0.229", features = ["derive"] }
serde_json = "=1.0.154"
bincode = "=1.3.3"
tokio = { version = "=1.54.1", features = ["full"] }
tracing = "=0.1.44"
tracing-subscriber = { version = "=0.3.23", features = ["env-filter"] }
parking_lot = "=0.12.5"
thiserror = "=2.0.21"
futures-util = { version = "=0.3.34", features = ["sink"] }
tokio-tungstenite = { version = "=0.30.0", features = ["rustls-tls-webpki-roots"] }
rusqlite = { version = "=0.41.1", features = ["bundled"] }
dashmap = "=6.2.1"
axum = "=0.8.9"
tower-http = { version = "=0.6.11", features = ["cors"] }
igd-next = "=0.18.0"
reqwest = { version = "=0.12.28", default-features = false, features = ["json", "rustls-tls"] }
loro = "=1.17.1"
image = { version = "=0.25.10", default-features = false, features = ["jpeg"] }
windows-sys = { version = "=0.52.0", features = ["Win32_Foundation", "Win32_NetworkManagement_IpHelper", "Win32_NetworkManagement_Ndis", "Win32_Networking_WinSock"] }
