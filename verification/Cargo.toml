[package]
name = "hotline"
version = "0.1.0"
edition = "2021"
publish = false

[dependencies]
js-sys = "*"
leptos = "*"
leptos-leaflet = "*"
wasm-bindgen = "*"
web-sys = { version = "*", features = ["Window", "Document", "Element", "HtmlCanvasElement", "CanvasRenderingContext2d", "CanvasGradient", "ImageData", "Navigator"] }
