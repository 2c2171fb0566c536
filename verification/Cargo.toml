[package]
name = "rastos"
version = "0.1.0"
edition = "2021"
publish = false

[dependencies]
aes-gcm = "0.10"
anyhow = "1"
async-trait = "0.1"
aws-config = "1"
aws-sdk-s3 = "1"
aws-smithy-http = "*"
base64 = "0.13"
btrfsutil = "*"
btrfsutil-sys = "*"
bytes = "1"
chrono = { version = "0.4", features = ["serde"] }
clap = { version = "4", features = ["derive"] }
env_logger = "*"
glob = "0.3"
log = "0.4"
num_cpus = "1"
object_store = "*"
oci-spec = "*"
rand = "0.8"
serde = { version = "1", features = ["derive"] }
serde_json = "1"
simplelog = "*"
tempfile = "3"
thiserror = "1"
tokio = { version = "1", features = ["fs", "io-util", "macros", "rt-multi-thread"] }
toml = "0.8"
uuid = { version = "1", features = ["v4"] }
