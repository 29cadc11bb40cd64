[package]
name = "rexie"
version = "0.6.2"
edition = "2021"
publish = false

[dependencies]
console_error_panic_hook = "0.1"
idb = { version = "0.6", features = ["builder"] }
js-sys = "0.3"
thiserror = "1"
tokio = { version = "1", default-features = false, features = ["sync"] }
wasm-bindgen = "0.2"
web-sys = { version = "0.3", features = ["DomException", "DomStringList", "Event", "EventTarget", "IdbCursor", "IdbCursorDirection", "IdbCursorWithValue", "IdbDatabase", "IdbFactory", "IdbIndex", "IdbKeyRange", "IdbObjectStore", "IdbOpenDbRequest", "IdbRequest", "IdbTransaction", "IdbTransactionMode"] }
