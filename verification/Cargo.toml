[package]
name = "secret_satan"
version = "0.1.0"
edition = "2021"
publish = false

[dependencies]
async-sqlite = "*"
base64 = "0.22"
chrono = "0.4"
color-eyre = "0.6"
dotenv = "0.15"
duration-str = "*"
mnemonic = "1"
poise = "0.6.1"
rand = "0.9"
rand_chacha = "0.9"
tokio = { version = "1", features = ["macros", "rt-multi-thread", "sync", "time"] }
tracing = "0.1"
tracing-subscriber = "0.3"
uuid = "1"
