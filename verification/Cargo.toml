[package]
name = "odoo_printer_manager"
version = "0.1.0"
edition = "2021"
publish = false

[dependencies]
quick-xml = "0.31"
base64 = "0.21"
rusb = "0.9"
axum = "0.6"
tokio = { version = "1", features = ["full"] }
tower-http = { version = "0.4", features = ["cors", "trace"] }
tracing-subscriber = "0.3"
serde = { version = "1", features = ["derive"] }
