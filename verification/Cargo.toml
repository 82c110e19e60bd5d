[package]
name = "remote_access"
version = "0.1.0"
edition = "2021"
publish = false

[dependencies]
aes = "0.8"
anyhow = "1"
axum = "0.7"
axum-server = { version = "0.7", features = ["tls-rustls-no-provider"] }
chacha20poly1305 = "0.10"
clap = { version = "4", features = ["derive", "env"] }
directories = "5"
futures = "0.3"
hex = "0.4"
hostname = "0.4"
if-addrs = "0.13"
rand = "0.8"
rcgen = { version = "0.13", default-features = false, features = ["pem", "ring"] }
reqwest = { version = "0.12", default-features = false, features = ["json", "rustls-tls"] }
roxmltree = "0.20"
rpassword = "7"
rsa = { version = "0.9", features = ["sha2"] }
rustls = { version = "0.23", default-features = false, features = ["ring", "std", "tls12"] }
rustls-pemfile = "2"
serde = { version = "1", features = ["derive"] }
serde_json = "1"
sha2 = "0.10"
signature = "2"
time = "0.3"
tokio = { version = "1", features = ["full"] }
toml = "0.8"
tracing = "0.1"
tracing-subscriber = { version = "0.3", features = ["env-filter"] }
uuid = { version = "1", features = ["v4"] }
x509-parser = "0.16"
