[package]
name = "eol_conversion"
version = "0.1.0"
edition = "2021"
rust-version = "1.95"
publish = false

[dependencies]
bstr = "=1.13.1"
futures = "=0.3.34"
gix = { version = "=0.73.0", default-features = false, features = ["attributes", "max-performance-safe"] }
# Not used directly: gix takes it, and its later versions ask for a compiler newer
# than `rust-version`.
kstring = "=2.0.2"
thiserror = "=2.0.21"
tokio = { version = "=1.54.1", features = ["io-util"] }
