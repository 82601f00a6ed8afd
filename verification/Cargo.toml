[package]
name = "pristine_grid"
version = "0.1.0"
edition = "2021"
publish = false

[dependencies]
wasm-bindgen = "0.2"
js-sys = "0.3"
wasm-bindgen-futures = "0.4"
web-sys = { version = "0.3", features = ["Document", "Element", "Event", "EventTarget", "HtmlCanvasElement", "HtmlElement", "KeyboardEvent", "MouseEvent", "Navigator", "Node", "PointerEvent", "Window", "console"] }
