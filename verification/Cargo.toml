[package]
name = "outetts"
version = "0.1.0"
edition = "2021"
publish = false

[dependencies]
anyhow = "1"
clap = { version = "4", features = ["derive"] }
llama-cpp-2 = "0.1"
ndarray = "0.15"
ort = "=2.0.0-rc.13"
serde = { version = "1", features = ["derive"] }
serde_json = "1"
tokenizers = "0.20"
tokio = { version = "1", features = ["macros", "rt-multi-thread"] }
