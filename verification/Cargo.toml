[package]
name = "aw_sync"
version = "0.1.0"
edition = "2021"
publish = false

[dependencies]
aes-gcm = "*"
base64 = "*"
chrono = { version = "0.4", features = ["serde"] }
gethostname = "*"
hkdf = "*"
libc = "0.2"
log = "0.4"
mdns-sd = "*"
rand = "0.8"
rocket = { version = "0.5", features = ["json"] }
rusqlite = { version = "*", features = ["bundled"] }
serde = { version = "1", features = ["derive"] }
serde_json = "1"
sha2 = "*"
tokio = { version = "1", features = ["rt", "rt-multi-thread", "time"] }
windows-sys = { version = "*", features = ["Win32_Foundation", "Win32_System_Registry", "Win32_NetworkManagement_IpHelper", "Win32_Networking_WinSock", "Win32_NetworkManagement_Ndis"] }
