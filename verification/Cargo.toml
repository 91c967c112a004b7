[package]
name = "sona_calls"
version = "0.1.0"
edition = "2021"
publish = false

[dependencies]
serde_json = "1"
serde = { version = "1", features = ["derive"] }
tokio = { version = "1", default-features = false, features = ["rt", "time", "sync", "macros"] }
zeroize = "1"
cpal = { version = "0.17", default-features = false }
nnnoiseless = { version = "0.5", default-features = false }
aec3 = "*"
jni = { version = "0.21", default-features = false }
ndk-context = "0.1"
tauri = { version = "2", default-features = false }
