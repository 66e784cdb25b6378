[package]
name = "gvmkit_build"
version = "0.1.0"
edition = "2021"
publish = false

[dependencies]
anyhow = "*"
clap = { version = "*", features = ["derive"] }
crc = "*"
hex = "*"
keyring = "*"
reqwest = { version = "*", default-features = false, features = ["json", "multipart"] }
rpassword = "*"
serde = { version = "*", features = ["derive"] }
serde_json = "*"
sha2 = "*"
sha3 = "*"
tokio = { version = "*", features = ["fs", "io-util", "macros", "rt-multi-thread", "time"] }

[dev-dependencies]
fastrand = "*"
