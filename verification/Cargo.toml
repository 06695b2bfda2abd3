[package]
name = "dicom_view"
version = "0.1.0"
edition = "2021"
publish = false

[dependencies]
dicom = { version = "=0.10.0", default-features = false }
wasm-bindgen = "=0.2.129"
web-sys = { version = "=0.3.106", features = [
    "Window",
    "Document",
    "Element",
    "HtmlElement",
    "HtmlCanvasElement",
    "CanvasRenderingContext2d",
    "ImageData",
    "MouseEvent",
    "DragEvent",
    "DataTransfer",
    "FileList",
    "File",
    "Blob",
    "EventTarget",
] }
gloo-console = "=0.4.0"
gloo-file = "=0.4.0"
console_error_panic_hook = "=0.1.7"
