[package]
name = "summerset"
version = "0.1.0"
edition = "2021"
publish = false

[dependencies]
fixedbitset = { version = "0.5", features = ["serde"] }
rand = "0.8"
get-size = "0.1"
serde = { version = "1", features = ["derive"] }
async-trait = "0.1"
lazy_static = "1"
tokio = { version = "1", features = ["time", "macros", "rt"] }
