[package]
name = "girk"
version = "0.1.0"
edition = "2021"
publish = false

[dependencies]
siphasher = "=1.0.4"
rand = "=0.8.8"
bincode = "=1.3.3"
renet2_netcode = { version = "=0.9.1", default-features = false }
ordered-multimap = "=0.7.3"
serde = { version = "=1.0.229", features = ["derive"] }
serde_json = "=1.0.154"
url = "=2.5.8"
bytes = "=1.12.1"
clap = { version = "4", features = ["derive"] }
