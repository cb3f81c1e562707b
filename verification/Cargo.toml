[package]
name = "pds_core"
version = "0.1.0"
edition = "2021"
publish = false

[dependencies]
serde = { version = "=1.0.229", features = ["derive"] }
serde_json = "=1.0.154"
sha2 = "=0.10.9"
hex = "=0.4.3"
chrono = { version = "=0.4.45", features = ["serde"] }
ed25519-dalek = { version = "=2.2.0", features = ["rand_core"] }
rand = "=0.8.8"
base64 = "=0.22.1"
automerge = "=0.6.1"
thiserror = "=1.0.69"
async-trait = "=0.1.92"
getrandom = "=0.2.17"
wasm-bindgen = "=0.2.129"
wasm-bindgen-futures = "=0.4.79"
js-sys = "=0.3.106"
web-sys = { version = "=0.3.106", features = ["Window", "Storage", "Event", "EventTarget", "DomException", "IdbFactory", "IdbDatabase", "IdbObjectStore", "IdbTransaction", "IdbTransactionMode", "IdbRequest", "IdbOpenDbRequest"] }
