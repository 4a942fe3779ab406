[package]
name = "graph_node"
version = "0.1.0"
edition = "2021"
publish = false

[dependencies]
bigdecimal = "=0.4.11"
diesel = { version = "=2.3.14", default-features = false, features = ["postgres_backend", "numeric", "serde_json"] }
serde = { version = "=1.0.229", features = ["derive"] }
serde_json = "=1.0.154"
hyper = { version = "=1.12.0", features = ["server", "http1"] }
hyper-util = { version = "*", features = ["tokio"] }
http-body-util = "=0.1.5"
futures = "=0.3.34"
tokio = { version = "=1.54.1", features = ["rt", "net", "sync"] }
graphql-parser = "=0.4.1"
slog = "=2.8.2"
ethabi = "=18.0.0"
ethereum-types = "=0.14.1"
web3 = { version = "=0.19.0", default-features = false }
failure = "=0.1.8"
