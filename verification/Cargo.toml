[package]
name = "deadman_switch"
version = "0.1.0"
edition = "2021"
publish = false

[dependencies]
candid = "*"
ic-cdk = "*"
ic-cdk-timers = "*"
icrc-ledger-types = "*"
serde = "*"
