[package]
name = "focusflow"
version = "0.1.0"
edition = "2021"
publish = false

[dependencies]
uuid = { version = "=1.29.0", features = ["v4", "js"] }
serde = { version = "=1.0.229", features = ["derive"] }
leptos = { version = "=0.6.15", features = ["csr"] }
gloo-storage = "=0.3.0"
js-sys = "=0.3.107"
wasm-bindgen = "=0.2.130"
web-sys = { version = "=0.3.107", features = ["Window", "Document", "Element", "HtmlElement", "Notification", "NotificationOptions"] }
