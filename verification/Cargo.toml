[package]
name = "xapirpc"
version = "0.1.0"
edition = "2021"
publish = false

[dependencies]
base64 = "=0.23.1"
xmlrpc = "=0.15.1"
iso8601 = "=0.4.2"
serde_json = "=1.0.151"
preferences = "=2.0.0"
