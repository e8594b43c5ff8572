[package]
name = "sftp_server"
version = "0.1.0"
edition = "2021"
publish = false

[dependencies]
anyhow = "1"
async-trait = "0.1"
dotenv = "0.15"
log = "0.4"
russh = "0.45"
russh-keys = "0.45"
russh-sftp = "2.0"
tokio = { version = "1", features = ["full"] }
