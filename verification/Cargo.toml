[package]
name = "webgl-rc"
version = "0.1.0"
edition = "2021"
publish = false

[dependencies]
js-sys = "0.3"
nalgebra-glm = "*"
regex = "1"
wasm-bindgen = "0.2"
web-sys = { version = "0.3", features = ["AngleInstancedArrays", "ExtColorBufferHalfFloat", "HtmlCanvasElement", "HtmlImageElement", "OesTextureHalfFloat", "OesTextureHalfFloatLinear", "WebGlActiveInfo", "WebGlBuffer", "WebGlFramebuffer", "WebGlProgram", "WebGlRenderbuffer", "WebGlRenderingContext", "WebGlShader", "WebGlTexture", "WebGlUniformLocation"] }
