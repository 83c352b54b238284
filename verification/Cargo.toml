[package]
name = "projet_rsns_morissetlarresacha"
version = "0.1.0"
edition = "2021"
publish = false

[dependencies]
clap = { version = "4", features = ["derive"] }
displaydoc = "0.2"
libc = "0.2"
serde = { version = "1", features = ["derive"] }
serde-json-core = "*"
thiserror = "*"
