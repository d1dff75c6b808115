[package]
name = "sky_parallel"
version = "0.1.0"
edition = "2021"
publish = false

[dependencies]
cgmath = "0.18"
web-sys = { version = "0.3", features = ["WebGl2RenderingContext", "WebGlUniformLocation"] }
