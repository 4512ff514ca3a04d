[package]
name = "tracker"
version = "0.1.0"
edition = "2021"
publish = false

[dependencies]
ethers-core = "2"
ethers-providers = { version = "2", default-features = false }
tokio = { version = "1", features = ["macros", "rt-multi-thread", "time"] }
async-trait = "0.1"
dotenv = "0.15"
serde_json = "1"
