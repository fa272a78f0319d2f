[package]
name = "ekiden"
version = "0.1.0"
edition = "2021"
publish = false

[dependencies]
sodalite = "*"
byteorder = "1"
rand = "0.4"
bsdiff = "*"
bzip2 = "*"
serde = { version = "1", features = ["derive"] }
serde_json = "1"
lazy_static = "1"
futures = "0.1"
hyper = "0.11"
tokio-core = "0.1"
abci = "*"
cc = "1"
mktemp = "0.3"
