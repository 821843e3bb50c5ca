[package]
name = "ironposh-client-core"
version = "0.1.0"
edition = "2021"
publish = false

[dependencies]
sspi = "=0.23.1"
base64 = "=0.22.1"
uuid = { version = "=1.29.0", features = ["v4"] }
aes = "=0.9.4"
cbc = "=0.2.1"
cipher = "=0.5.2"
rsa = "=0.9.10"
rand = "=0.8.8"
sha2 = "=0.11.1"
whoami = "=2.1.3"
url = "=2.5.8"
futures = "=0.3.34"
