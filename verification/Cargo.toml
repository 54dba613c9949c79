[package]
name = "mandelbrot"
version = "0.1.0"
edition = "2021"
publish = false

[dependencies]
image = "0.24"
num = "0.4"
tokio = { version = "1", features = ["full"] }
futures = "0.3"
