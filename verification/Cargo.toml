[package]
name = "fuser_async"
version = "0.1.0"
edition = "2021"
publish = false

[dependencies]
async-trait = "=0.1.92"
base64 = "=0.21.7"
bimap = "=0.6.3"
config = { version = "=0.15.27", default-features = false, features = ["toml"] }
datafusion = { version = "*", default-features = false }
directories = "=5.0.1"
fuser = { version = "=0.14.0", default-features = false }
futures = "=0.3.34"
libc = "=0.2.191"
log = "=0.4.34"
opendal = { version = "=0.59.5", default-features = false, features = ["services-fs", "services-sftp"] }
parking_lot = "=0.12.5"
rusb = "=0.9.4"
serde = { version = "=1.0.229", features = ["derive"] }
serde_json = "=1.0.154"
serde_with = "=3.24.0"
thiserror = "=1.0.69"
tokio = { version = "=1.54.1", features = ["rt", "rt-multi-thread", "sync", "macros", "signal", "time"] }
toml = "=0.8.23"
