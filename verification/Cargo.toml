[package]
name = "wasm_parser"
version = "0.1.0"
edition = "2021"
publish = false

[dependencies]
base64 = "*"
thiserror = "*"
serde = { version = "*", features = ["derive"] }
serde_json = "*"
anyhow = "*"
clap = { version = "*", features = ["derive"] }
axum = "*"
tokio = { version = "*", features = ["rt-multi-thread", "macros", "net", "fs"] }
tower-http = { version = "*", features = ["cors", "fs"] }
wasm-bindgen = "*"
js-sys = "*"
web-sys = { version = "*", features = ["console"] }
console_error_panic_hook = "*"
