[package]
name = "sdlc_cp_api"
version = "0.1.0"
edition = "2021"
publish = false

[dependencies]
chrono = "*"
uuid = { version = "*", features = ["v4"] }
serde_json = "*"
serde = { version = "*", features = ["derive"] }
tokio = { version = "*", features = ["full"] }
axum = "*"
async-trait = "*"
thiserror = "*"
schemars = "*"
utoipa = "*"
