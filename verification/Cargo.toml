[package]
name = "ionconnect"
version = "0.1.0"
edition = "2021"
publish = false

[dependencies]
sha2 = "0.10"
rand = "0.9"
tokio = { version = "1", features = ["sync", "rt-multi-thread", "macros", "net", "time", "io-util", "fs", "signal"] }
serde = { version = "1", features = ["derive"] }
toml = "0.8"
thiserror = "2"
x11rb = { version = "0.13", features = ["xinput", "xtest", "xkb"] }
