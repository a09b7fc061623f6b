[package]
name = "lan-mouse"
version = "0.10.0"
edition = "2021"
publish = false

[dependencies]
arboard = { version = "=3.7.0", default-features = false, features = ["image-data"] }
blake3 = "=1.8.7"
ciborium = "=0.2.2"
clap = { version = "=4.6.7", features = ["derive"] }
env_logger = "=0.11.11"
hickory-resolver = "=0.25.2"
hostname = "=0.4.2"
libc = "=0.2.191"
log = "=0.4.35"
mdns-sd = "=0.13.11"
png = "=0.17.16"
quinn = "=0.11.12"
rustls = { version = "=0.23.46", default-features = false, features = ["ring", "std", "logging", "tls12"] }
rustls-pemfile = "=2.2.0"
serde = { version = "=1.0.229", features = ["derive"] }
serde_json = "=1.0.154"
sha2 = "=0.10.9"
tempfile = "=3.27.0"
thiserror = "=2.0.21"
tokio = { version = "=1.54.1", features = ["full"] }
toml = "0.8"
ureq = { version = "=2.12.1", features = ["json"] }
wayland-client = "=0.31.15"
wayland-protocols-wlr = { version = "=0.3.12", features = ["client"] }
webrtc-dtls = { version = "=0.12.0", features = ["pem"] }
webrtc-util = "=0.11.0"
windows = { version = "=0.61.3", features = ["Win32_Foundation", "Win32_Graphics_Gdi", "Win32_System_Com", "Win32_System_LibraryLoader", "Win32_System_Memory", "Win32_System_Ole", "Win32_System_SystemServices", "Win32_System_Threading", "Win32_UI_Shell", "Win32_UI_WindowsAndMessaging"] }
windows-service = "=0.8.1"
windows-sys = { version = "=0.59.0", features = ["Win32_Foundation", "Win32_Security", "Win32_Storage_FileSystem", "Win32_System_Console", "Win32_System_Environment", "Win32_System_RemoteDesktop", "Win32_System_Threading", "Win32_UI_WindowsAndMessaging"] }
zstd = "=0.13.4"
