[package]
name = "reis"
version = "0.1.0"
edition = "2021"
publish = false

[dependencies]
rustix = { version = "*", features = ["event", "fs", "net", "time", "std"] }
enumflags2 = "*"
futures-util = "*"
log = "*"
tokio = { version = "*", features = ["net", "rt"] }
calloop = "*"
serde = { version = "*", features = ["derive"] }
quick-xml = { version = "*", features = ["serialize"] }
