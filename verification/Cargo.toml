[package]
name = "spair"
version = "0.1.0"
edition = "2021"
publish = false

[dependencies]
uuid = "1"
log = "0.4"
wasm-bindgen = "0.2"
web-sys = { version = "0.3", features = ["Comment", "Document", "DomTokenList", "Element", "Event", "EventTarget", "HtmlElement", "HtmlInputElement", "HtmlSelectElement", "HtmlTextAreaElement", "Node", "Text", "Window"] }
