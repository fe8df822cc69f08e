[package]
name = "openhedge_arbitrage"
version = "0.1.0"
edition = "2021"
publish = false

[dependencies]
bstr = "1"
clap = { version = "4", features = ["derive"] }
fixed = { version = "1", features = ["serde-str", "num-traits"] }
futures = "0.3"
io-extra = "*"
num-traits = "0.2"
serde = { version = "1", features = ["derive"] }
serde_json = "1"
serde_path_to_error = "0.1"
thiserror = "1"
tokio = { version = "1", features = ["macros", "rt-multi-thread", "net"] }
tokio-tungstenite = { version = "0.21", features = ["native-tls"] }
tracing = "0.1"
tracing-subscriber = "0.3"
tungstenite = "0.21"
typenum = "1"

[dev-dependencies]
itertools = "0.12"
