[package]
name = "qdk_cutensornet"
version = "0.1.0"
edition = "2021"
publish = false

[dependencies]
num-complex = "0.4"
serde_json = "1"
thiserror = "2"
