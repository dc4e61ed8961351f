[package]
name = "documentdb_gateway"
version = "0.1.0"
edition = "2021"
publish = false

[dependencies]
serde_json = "*"
serde = { version = "*", features = ["derive"] }
tokio = { version = "*", features = ["full"] }
tokio-postgres = "*"
deadpool-postgres = "*"
bson = "*"
async-trait = "*"
log = "*"
tracing = "*"
dyn-clone = "*"
either = "*"
