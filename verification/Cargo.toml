[package]
name = "peer_candidates"
version = "0.1.0"
edition = "2021"
publish = false

[dependencies]
byteorder = "1"
chrono = { version = "0.4", default-features = false, features = ["clock", "std"] }
futures = "0.3"
tokio = { version = "1", features = ["time", "rt", "macros", "sync"] }
tower = { version = "0.4", features = ["util"] }
