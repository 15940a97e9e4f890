[package]
name = "slitscan"
version = "0.1.0"
edition = "2021"
publish = false

[dependencies]
image = { version = "0.25", default-features = false, features = ["gif", "png"] }
base64 = "0.22"
serde = { version = "1", features = ["derive"] }
actix-web = { version = "4", default-features = false, features = ["macros"] }
actix-files = "0.6"
actix-multipart = "0.6"
futures = "0.3"
wasm-bindgen = "0.2"
web-sys = { version = "0.3", features = ["console"] }
serde-wasm-bindgen = "0.6"
