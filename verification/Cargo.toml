[package]
name = "ibc_client_tendermint"
version = "0.1.0"
edition = "2021"
publish = false

[dev-dependencies]
ibc-client-tendermint-types = "*"
ibc-core-client-types = "*"
ibc-primitives = "*"
