[package]
name = "amms"
version = "0.1.0"
edition = "2021"
publish = false

[dependencies]
async-trait = "0.1"
ethers = { version = "2", default-features = false }
eyre = "0.6"
serde = { version = "1", features = ["derive"] }
tokio = { version = "1", features = ["macros", "rt-multi-thread"] }
