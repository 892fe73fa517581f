[package]
name = "consistent_hash_math"
version = "0.1.0"
edition = "2021"
publish = false

[dependencies]
getrandom = "0.3"
itertools = "*"
aho-corasick = "1"
compact_str = "*"
ordered-float = "*"
quill = "*"
serde = { version = "1", features = ["derive"] }
serde_json = "1"
svg = "*"
wasm-bindgen = "*"
console_error_panic_hook = "*"
