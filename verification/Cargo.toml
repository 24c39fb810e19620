[package]
name = "kovi_plugins"
version = "0.1.0"
edition = "2021"
publish = false

[dependencies]
regex = "=1.13.1"
serde = { version = "=1.0.229", features = ["derive"] }
serde_json = "=1.0.154"
serde_with = "=3.24.0"
anyhow = "=1.0.104"
kovi = "=0.13.5"
kovi-onebot = "=0.13.2"
kovi-plugin-expand-napcat = "=0.5.0"
async-openai = { version = "=0.43.0", features = ["chat-completion"] }
boa_engine = "=0.22.0"
