[package]
name = "grimoire"
version = "0.1.0"
edition = "2021"
publish = false

[dependencies]
argon2 = { version = "=0.5.3", default-features = false, features = ["alloc"] }
blake3 = { version = "=1.8.7", default-features = false, features = ["std"] }
chacha20poly1305 = { version = "=0.10.1", default-features = false, features = ["alloc"] }
clap = { version = "=4.6.7", default-features = false, features = ["std", "derive", "help", "usage"] }
ed25519-dalek = { version = "=2.2.0", default-features = false, features = ["std", "fast", "zeroize"] }
hpke = { version = "=0.13.0", default-features = false, features = ["alloc", "x25519"] }
iroh = { version = "=1.4.1", default-features = false, features = ["metrics", "tls-ring"] }
prost = { version = "=0.14.4", default-features = false, features = ["std"] }
rand = "=0.9.5"
serde = { version = "=1.0.229", features = ["derive"] }
serde_json = "=1.0.154"
tokio = { version = "=1.54.1", features = ["rt-multi-thread", "macros", "sync", "time", "fs", "signal"] }
zeroize = "=1.9.1"
