[package]
name = "convergence"
version = "0.1.0"
edition = "2021"
publish = false

[dependencies]
bytes = "=1.12.1"
tokio-util = { version = "=0.7.20", features = ["codec"] }
thiserror = "=1.0.69"
async-trait = "=0.1.92"
sqlparser = "=0.63.0"
tokio = { version = "=1.54.1", features = ["net", "io-util", "rt"] }
futures = "=0.3.34"
arrow = { version = "=59.3.1", default-features = false }
datafusion = { version = "=55.2.0", default-features = false, features = ["sql"] }
rusoto_core = { version = "0.48", default-features = false, features = ["rustls"] }
rusoto_dynamodb = { version = "0.48", default-features = false, features = ["rustls"] }
