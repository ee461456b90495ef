[package]
name = "meshelf"
version = "0.1.0"
edition = "2021"
publish = false

[dependencies]
anyhow = "=1.0.104"
async-trait = "=0.1.92"
dirs = "=7.0.0"
ed25519-dalek = { version = "=2.2.0", features = ["rand_core"] }
jni = "=0.22.4"
keyring = { version = "3", features = ["linux-native"] }
rand_core = { version = "=0.6.4", features = ["getrandom", "std"] }
serde = { version = "=1.0.229", features = ["derive"] }
serde_json = "=1.0.154"
sha2 = "=0.11.1"
thiserror = "=2.0.21"
tokio = { version = "=1.54.1", features = ["fs", "io-std", "io-util", "macros", "net", "rt-multi-thread", "sync", "time"] }
tracing = "=0.1.44"
tracing-subscriber = "=0.3.23"
uuid = { version = "=1.29.0", features = ["v4"] }
