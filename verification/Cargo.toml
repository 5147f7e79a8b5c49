[package]
name = "tak_garden"
version = "0.1.0"
edition = "2021"
publish = false

[dependencies]
harsh = "=0.2.2"
serde = { version = "=1.0.229", features = ["derive"] }
serde_cbor = "=0.11.2"
tokio = { version = "=1.54.1", features = ["full"] }
warp = "0.3"
futures = "=0.3.34"
once_cell = "=1.21.4"
wasm-bindgen = "=0.2.130"
js-sys = "=0.3.107"
web-sys = { version = "=0.3.107", features = ["Window", "Document", "Element", "HtmlElement", "HtmlInputElement", "EventTarget", "Event", "KeyboardEvent", "WebSocket", "MessageEvent", "BinaryType", "Location", "History", "DomTokenList", "CssStyleDeclaration", "DomRect", "Node"] }
