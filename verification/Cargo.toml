[package]
name = "heimdallr"
version = "0.1.0"
edition = "2021"
publish = false

[dependencies]
chrono = "0.4"
uuid = { version = "*", features = ["v4"] }
serde = { version = "1", features = ["derive"] }
serde_json = "1"
log = "0.4"
fern = "*"
clap = "2"
config = "0.13"
tokio = { version = "1", features = ["full"] }
tonic = "*"
prost-types = "*"
diesel = { version = "*", features = ["postgres", "r2d2"] }
diesel_migrations = "*"
r2d2 = "*"
