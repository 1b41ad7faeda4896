[package]
name = "space_artillery"
version = "0.1.0"
edition = "2021"
publish = false

[dependencies]
glam = "*"
log = "*"
wasm-bindgen = "*"
wasm-logger = "*"
web-sys = { version = "*", features = ["Window", "Document", "Element", "HtmlCanvasElement", "CanvasRenderingContext2d", "Event", "EventTarget", "KeyboardEvent"] }
