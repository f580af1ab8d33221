[package]
name = "bw_ssh_agent"
version = "0.1.0"
edition = "2021"
publish = false

[dependencies]
aes = "=0.8.4"
async-trait = "0.1"
base64 = "=0.22.1"
byteorder = "=1.5.0"
cbc = "=0.1.2"
clap = { version = "4", features = ["derive"] }
color-eyre = "0.6"
core-foundation = "0.9"
directories = "5"
hkdf = "=0.12.4"
objc2 = "0.5"
objc2-foundation = { version = "0.2", features = ["NSString", "NSError"] }
objc2-service-management = { version = "0.2", features = ["SMAppService"] }
pbkdf2 = "=0.12.2"
reqwest = { version = "0.12", default-features = false, features = ["json", "rustls-tls"] }
rsa = "=0.9.6"
rusqlite = { version = "0.31", features = ["bundled"] }
rustyline = "14"
security-framework = "2"
security-framework-sys = "2"
serde = { version = "1", features = ["derive"] }
serde_json = "1"
serde_repr = "0.1"
serde_urlencoded = "=0.7.1"
sha2 = "=0.10.9"
ssh-key = { version = "=0.6.7", features = ["ed25519", "rsa", "p256", "p384"] }
sysinfo = "0.30"
tokio = { version = "1", features = ["rt", "macros", "net", "io-util", "fs", "sync"] }
uuid = { version = "=1.29.0", features = ["v4"] }
zeroize = "=1.9.1"
