[package]
name = "holo"
version = "0.1.0"
edition = "2021"
publish = false

[dependencies]
arc-swap = "1"
chrono = "0.4"
convert_case = "*"
generational-arena = "0.2"
ipnetwork = "*"
libc = "0.2"
nix = { version = "*", features = ["fs", "net", "socket", "uio"] }
prefix-trie = { version = "*", features = ["ipnetwork"] }
tokio = { version = "1", features = ["io-util", "macros", "net", "rt", "sync"] }
tracing = "0.1"
yang5 = { version = "*", features = ["bundled"] }
