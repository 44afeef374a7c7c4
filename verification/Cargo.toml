[package]
name = "doctree"
version = "0.1.0"
edition = "2021"
publish = false

[dependencies]
uuid = { version = "*", features = ["v4"] }
serde = { version = "*", features = ["derive"] }
serde_json = "*"
serde_yml = "*"
thiserror = "*"
log = "*"
reqwest = { version = "*", default-features = false }
tokio = { version = "*", features = ["macros", "rt", "time"] }
