[package]
name = "llm_gateway"
version = "0.1.0"
edition = "2021"
publish = false

[dependencies]
base64 = "*"
tracing = "*"
reqwest = { version = "*", default-features = false }
serde = { version = "*", features = ["derive"] }
serde_json = "*"
tokio = { version = "*", features = ["rt", "sync"] }
async-trait = "*"
typetag = "*"
aws-config = "*"
aws-credential-types = "*"
aws-sdk-bedrockruntime = "*"
