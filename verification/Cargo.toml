[package]
name = "yew_query"
version = "0.1.0"
edition = "2021"
publish = false

[dependencies]
instant = { version = "0.1", features = ["now"] }
js-sys = "0.3"
paste = "1"
wasm-bindgen = "0.2"
wasm-bindgen-futures = "0.4"
web-sys = { version = "0.3", features = ["Window", "EventTarget"] }
yew = "0.19"
