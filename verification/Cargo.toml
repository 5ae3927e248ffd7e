[package]
name = "biubin"
version = "0.2.1"
edition = "2021"
publish = false

[dependencies]
url = "2"
base64 = "0.22"
flate2 = "1"
httpdate = "1"
time = { version = "0.3", features = ["formatting"] }
serde = { version = "1", features = ["derive"] }
serde_json = "1"
axum = { version = "0.8", features = ["ws"] }
tokio = { version = "1", features = ["full"] }
async-stream = "0.3"
futures-util = "0.3"
async-graphql = { version = "7", default-features = false }
tonic = "0.14"
prost = "0.14"
tonic-reflection = "0.14"
tokio-stream = { version = "0.1", features = ["net"] }
rumqttd = "0.19"
rustls-pemfile = "2"
tokio-rustls = { version = "0.26", features = ["ring"] }
tracing = "0.1"
tracing-subscriber = { version = "0.3", features = ["env-filter"] }
thrift = "0.17"
