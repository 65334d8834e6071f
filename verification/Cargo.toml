[package]
name = "storynode_core"
version = "0.1.0"
edition = "2021"
publish = false

[dependencies]
serde_json = "*"
base64 = "*"

[dependencies.zip]
version = "*"
default-features = false
features = ["deflate"]
