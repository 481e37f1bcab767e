[package]
name = "edgedb_pkg"
version = "0.1.0"
edition = "2021"
publish = false

[dependencies]
url = "2"
hex = "0.4"
blake2b_simd = "1"
serde = { version = "1", features = ["derive"] }
serde_json = "1"
serde_path_to_error = "*"
surf = { version = "2", default-features = false, features = ["h1-client-rustls"] }
async-std = { version = "1", features = ["attributes"] }
indicatif = "*"
anyhow = "1"
