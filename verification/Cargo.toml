[package]
name = "wasmgame"
version = "0.1.0"
edition = "2021"
publish = false

[dependencies]
wasm-bindgen = "0.2"
wasm-bindgen-futures = "0.4"
js-sys = "0.3"
log = "0.4"
wasm-logger = "0.2"
console_error_panic_hook = "0.1"
obj = "0.10"

[dependencies.web-sys]
version = "0.3"
features = [
  "AddEventListenerOptions",
  "Document",
  "DomRect",
  "Element",
  "Event",
  "EventTarget",
  "HtmlCanvasElement",
  "MouseEvent",
  "Touch",
  "TouchEvent",
  "TouchList",
  "WebGl2RenderingContext",
  "WebGlBuffer",
  "WebGlContextAttributes",
  "WebGlFramebuffer",
  "WebGlProgram",
  "WebGlRenderbuffer",
  "WebGlRenderingContext",
  "WebGlShader",
  "WebGlTexture",
  "WebGlUniformLocation",
  "WebGlVertexArrayObject",
  "Window",
]
