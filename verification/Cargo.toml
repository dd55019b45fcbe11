[package]
name = "mock_request"
version = "0.1.0"
edition = "2021"
publish = false

[dependencies]
url = "2"
serde_json = "1"
serde = "1"
http = "0.2"
hyper = "0.14"
