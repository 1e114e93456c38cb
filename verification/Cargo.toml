[package]
name = "rust_sak"
version = "0.1.0"
edition = "2021"
publish = false

[dependencies]
hex = "=0.4.3"
uuid = { version = "=1.29.0", features = ["v4"] }
serde = { version = "=1.0.229", features = ["derive"] }
serde_json = "=1.0.154"
reqwest = { version = "=0.12.28", default-features = false, features = ["blocking", "json"] }
thiserror = "=2.0.21"
tracing = "=0.1.44"
tracing-subscriber = { version = "=0.3.23", default-features = false, features = ["registry", "std"] }
sysinfo = "=0.40.1"
libloading = "=0.8.9"
libc = "=0.2.191"
machine-uid = "=0.6.0"
hmac = "=0.12.1"
sha2 = "=0.10.9"
pin-project-lite = "=0.2.17"
objc2-core-foundation = "=0.3.2"
objc2-io-kit = "=0.3.2"
windows = { version = "=0.62.2", features = ["Win32_Graphics_Dxgi", "Win32_Graphics_Dxgi_Common"] }
