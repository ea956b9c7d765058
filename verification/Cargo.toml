[package]
name = "rayon_gemm"
version = "0.1.0"
edition = "2021"
publish = false

[dependencies]
clap = { version = "4", features = ["derive"] }
half = "2"
objc2 = "0.6"
objc2-metal = "0.3"
objc2-metal-performance-shaders = "0.3"
rayon = "1"
serde = { version = "1", features = ["derive"] }
serde_json = "1"
