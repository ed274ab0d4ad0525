[package]
name = "tenken"
version = "0.1.0"
edition = "2021"
publish = false

[dependencies]
fxhash = "0.2.1"
gjson = "*"
actix = "*"
actix-web = "4"
serde = { version = "1", features = ["derive"] }
serde_json = "1"
thiserror = "1"
lazy_static = "1"
regex = "1"
stopwatch = "*"
tokio = { version = "1", features = ["full"] }
may = "*"
may_minihttp = "*"
