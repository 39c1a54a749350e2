[package]
name = "aide_de_camp"
version = "0.3.0"
edition = "2021"
publish = false

[dependencies]
anyhow = "1"
async-trait = "0.1"
bincode = "2"
bytes = "1"
chrono = "0.4"
futures = "0.3"
rand = "0.8"
sqlx = { version = "0.8", default-features = false, features = ["sqlite", "runtime-tokio", "chrono"] }
thiserror = "1"
tokio = { version = "1", features = ["rt-multi-thread", "macros", "time", "sync"] }
tokio-util = "0.7"
tracing = "0.1"
xid = "1"
