[package]
name = "authkit"
version = "0.1.0"
edition = "2021"
publish = false

[dependencies]
jsonwebtoken = { version = "=11.1.0", features = ["rust_crypto"] }
serde_json = "=1.0.151"
axum = "=0.8.9"
axum-extra = { version = "=0.12.6", features = ["cookie"] }
axum-login = "=0.18.0"
async-trait = "=0.1.92"
serde = { version = "=1.0.229", features = ["derive"] }
time = "=0.3.55"
tokio = { version = "=1.53.2", features = ["macros", "rt-multi-thread", "net"] }
tower-livereload = "=0.10.3"
dotenv = "=0.15.0"
uuid = { version = "=1.27.0", features = ["v4", "serde"] }
