[package]
name = "order_labels"
version = "0.1.0"
edition = "2021"
publish = false

[dependencies]
lopdf = "*"
csv = "*"
serde = { version = "*", features = ["derive"] }
tinyfiledialogs = "*"
