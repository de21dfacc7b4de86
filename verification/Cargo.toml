[package]
name = "hypehouse_engine"
version = "0.1.0"
edition = "2021"
publish = false

[dependencies]
anyhow = "1"
cpal = "0.16"
crossbeam = "0.8"
futures-util = "0.3"
reqwest = { version = "0.12", default-features = false, features = ["blocking", "json"] }
ringbuf = "0.4"
rubato = "0.16"
serde = { version = "1", features = ["derive"] }
serde_json = "1"
smallvec = "1"
symphonia = { version = "0.5", features = ["all"] }
thiserror = "2"
tokio = { version = "1", features = ["full"] }
tokio-tungstenite = "0.26"
tracing = "0.1"
