[package]
name = "astrpt"
version = "0.1.0"
edition = "2021"
publish = false

[dependencies]
astroport = "=3.12.2"
# astroport-pcl-common 1.1.1 asks for a factory of 1.5 or later; the later ones are
# built on astroport 5 and do not compile with it. Nothing here names this crate.
astroport-factory = "=1.7.0"
astroport-pcl-common = "=1.1.1"
cosmwasm-schema = "=1.5.11"
cosmwasm-std = "=1.5.11"
cw2 = "=1.1.2"
cw20 = "=0.15.1"
cw-storage-plus = "=0.15.1"
cw-utils = "=1.0.3"
itertools = "=0.10.5"
schemars = "=0.8.22"
serde = { version = "=1.0.229", features = ["derive"] }
serde_json = "=1.0.154"
thiserror = "=1.0.69"
