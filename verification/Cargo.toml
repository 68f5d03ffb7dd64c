[package]
name = "mcp-gateway"
version = "0.1.0"
edition = "2021"
publish = false

[dependencies]
async-trait = "=0.1.92"
axum = { version = "=0.8.9", default-features = false, features = ["http1", "http2", "json", "tokio", "query"] }
base64 = "=0.22.1"
clap = { version = "=4.6.7", features = ["derive"] }
humantime = "=2.4.0"
hyper-util = { version = "=0.1.21", features = ["server-auto", "service", "tokio"] }
ipnet = { version = "=2.12.2", features = ["serde"] }
jsonwebtoken = { version = "=9.3.1", default-features = false }
rcgen = { version = "=0.13.2", default-features = false, features = ["crypto", "ring", "pem"] }
region = "=3.0.2"
reqwest = { version = "=0.12.28", default-features = false, features = ["json", "rustls-tls-manual-roots-no-provider"] }
rlimit = "=0.10.2"
rustls = { version = "=0.23.46", default-features = false, features = ["ring", "std", "tls12"] }
serde = { version = "=1.0.229", features = ["derive"] }
serde_json = { version = "=1.0.154", features = ["raw_value"] }
sha2 = "=0.10.9"
thiserror = "=2.0.21"
tokio = { version = "=1.54.1", features = ["full"] }
tokio-rustls = { version = "=0.26.6", default-features = false, features = ["ring", "tls12"] }
tower = { version = "=0.5.3", features = ["util"] }
tower-http = { version = "=0.6.11", features = ["cors"] }
tracing = "=0.1.44"
tracing-subscriber = { version = "=0.3.23", features = ["env-filter", "json"] }
url = "=2.5.8"
x509-parser = "=0.17.0"
zeroize = "=1.9.1"
