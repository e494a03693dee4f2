[package]
name = "soundwave"
version = "0.1.0"
edition = "2021"
publish = false

[dependencies]
sha2 = "=0.10.9"
rtrb = "=0.3.6"
crossbeam-queue = "=0.3.14"
qrcodegen = "=1.8.0"
bytes = "=1.12.1"
postcard = { version = "=1.1.3", features = ["alloc"] }
serde = { version = "=1.0.229", features = ["derive"] }
thiserror = "=2.0.21"
anyhow = "=1.0.104"
quinn = { version = "=0.11.12", default-features = false, features = ["rustls-ring", "runtime-tokio", "log"] }
rustls = { version = "=0.23.46", default-features = false, features = ["ring", "std", "logging", "tls12"] }
rcgen = { version = "=0.13.2", default-features = false, features = ["crypto", "ring", "pem"] }
tokio = { version = "=1.54.1", features = ["rt-multi-thread", "macros", "time", "io-util", "net", "signal", "sync"] }
tokio-util = "=0.7.20"
clap = { version = "=4.6.7", features = ["derive"] }
tracing = "=0.1.44"
tracing-subscriber = { version = "=0.3.23", features = ["env-filter"] }
crossbeam-channel = "=0.5.17"
arc-swap = "=1.9.3"
jni = "*"
wasapi = "*"
windows = { version = "*", features = ["Win32_Foundation", "Win32_Graphics_Gdi", "Win32_System_LibraryLoader", "Win32_UI_Shell", "Win32_UI_WindowsAndMessaging", "Win32_NetworkManagement_IpHelper", "Win32_NetworkManagement_Ndis", "Win32_Networking_WinSock"] }
