[package]
name = "net_modeler"
version = "0.1.0"
edition = "2021"
publish = false

[dependencies]
petgraph = "=0.8.3"
csv = "=1.4.0"
serde = { version = "=1.0.229", features = ["derive"] }
rand = "=0.10.3"
raylib = { version = "=5.5.1", features = ["imgui"] }
imgui = "*"
