[package]
name = "hookecho"
version = "0.1.0"
edition = "2021"
publish = false

[dependencies]
anyhow = "*"
async-trait = "*"
bytemuck = { version = "*", features = ["derive"] }
chrono = "*"
egui = "*"
egui-wgpu = "*"
getrandom = "*"
glam = "*"
image = { version = "*", default-features = false, features = ["png", "jpeg", "gif", "webp"] }
log = "*"
lru = "*"
reqwest = { version = "*", default-features = false }
serde = { version = "*", features = ["derive"] }
serde_json = "*"
tokio = { version = "*", features = ["rt", "rt-multi-thread", "net", "io-util", "time", "macros", "sync"] }
wgpu = "*"
